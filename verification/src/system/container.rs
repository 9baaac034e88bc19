//! Containers of Docker and Podman: their states, the commands that act on
//! them, and the text of `docker ps` and `docker stats` that the monitor
//! reads. The program runs the commands and decodes their JSON.

use vstd::prelude::*;

use crate::system::fan::strip_suffix_all;
use vstd::string::StringSliceAdditionalSpecFns;
use vstd::utf8::{encode_utf8, is_char_boundary};
use crate::text::{
    chars_eq_str, chars_of, has_prefix, lowercase, split_on, split_sep, string_of, to_lowercase,
    trim, trim_chars, views,
};

verus! {

/// The container engine whose command line the monitor uses.
#[derive(Clone, Copy, Debug, PartialEq, Eq, Structural)]
pub enum ContainerRuntime {
    Docker,
    Podman,
}

/// The state of a container.
#[derive(Clone, Copy, Debug, PartialEq, Eq, Structural)]
pub enum ContainerState {
    Running,
    Paused,
    Exited,
    Created,
    Restarting,
    Unknown,
}

/// An action on a container.
#[derive(Clone, Copy, Debug, PartialEq, Eq, Structural)]
pub enum ContainerAction {
    Stop,
    Restart,
    Pause,
    Unpause,
}

/// The state that a lowercase state name denotes.
pub open spec fn state_named(l: Seq<char>) -> ContainerState {
    if l == "running"@ {
        ContainerState::Running
    } else if l == "paused"@ {
        ContainerState::Paused
    } else if l == "exited"@ {
        ContainerState::Exited
    } else if l == "created"@ {
        ContainerState::Created
    } else if l == "restarting"@ {
        ContainerState::Restarting
    } else {
        ContainerState::Unknown
    }
}

/// The state a state name reports, compared case-insensitively.
pub fn parse_state(s: &str) -> (r: ContainerState)
    ensures
        r == state_named(lowercase(s@)),
{
    let l = to_lowercase(s);
    state_from_lowercase(l.as_str())
}

/// The state that the already lowercased name `l` denotes.
pub fn state_from_lowercase(l: &str) -> (r: ContainerState)
    ensures
        r == state_named(l@),
{
    let c = chars_of(l);
    let c = c.as_slice();
    if chars_eq_str(c, "running") {
        ContainerState::Running
    } else if chars_eq_str(c, "paused") {
        ContainerState::Paused
    } else if chars_eq_str(c, "exited") {
        ContainerState::Exited
    } else if chars_eq_str(c, "created") {
        ContainerState::Created
    } else if chars_eq_str(c, "restarting") {
        ContainerState::Restarting
    } else {
        ContainerState::Unknown
    }
}

impl ContainerRuntime {
    /// The command that drives this engine.
    pub fn command(self) -> (r: &'static str)
        ensures
            r@ == match self {
                ContainerRuntime::Docker => "docker"@,
                ContainerRuntime::Podman => "podman"@,
            },
    {
        match self {
            ContainerRuntime::Docker => "docker",
            ContainerRuntime::Podman => "podman",
        }
    }
}

impl ContainerAction {
    /// The sub-command that performs this action.
    pub fn verb(self) -> (r: &'static str)
        ensures
            r@ == match self {
                ContainerAction::Stop => "stop"@,
                ContainerAction::Restart => "restart"@,
                ContainerAction::Pause => "pause"@,
                ContainerAction::Unpause => "unpause"@,
            },
    {
        match self {
            ContainerAction::Stop => "stop",
            ContainerAction::Restart => "restart",
            ContainerAction::Pause => "pause",
            ContainerAction::Unpause => "unpause",
        }
    }
}

/// The short form of a container ID: its first 12 bytes, or all of it when
/// it is shorter. A longer ID must have a character boundary at byte 12
/// (IDs are hexadecimal).
pub fn short_id(id: &str) -> (r: String)
    requires
        id.spec_bytes().len() > 12 ==> is_char_boundary(id.spec_bytes(), 12),
    ensures
        id.spec_bytes().len() <= 12 ==> r@ == id@,
        id.spec_bytes().len() > 12 ==> encode_utf8(r@) == id.spec_bytes().subrange(0, 12),
{
    if id.as_bytes().len() <= 12 {
        id.to_owned()
    } else {
        let (head, _) = id.split_at(12);
        head.to_owned()
    }
}

/// The index of the first container ID that `stat_id` starts with, as the
/// stats of `docker stats` are matched to the containers of `docker ps`.
pub open spec fn stat_owner(ids: Seq<Seq<char>>, stat_id: Seq<char>) -> Option<int>
    decreases ids.len(),
{
    if ids.len() == 0 {
        None
    } else {
        match stat_owner(ids.drop_last(), stat_id) {
            Some(k) => Some(k),
            None => if has_prefix(stat_id, ids.last()) {
                Some(ids.len() - 1)
            } else {
                None
            },
        }
    }
}

/// The characters of each string.
pub open spec fn string_views(v: Seq<String>) -> Seq<Seq<char>> {
    v.map_values(|s: String| s@)
}

/// For each stats entry, the index of the container it belongs to: the
/// first container whose ID the entry's container ID starts with.
pub fn match_stats(ids: &[String], stat_ids: &[String]) -> (r: Vec<Option<usize>>)
    ensures
        r@.len() == stat_ids@.len(),
        forall|j: int|
            0 <= j < stat_ids@.len() ==> match #[trigger] r@[j] {
                Some(k) => stat_owner(string_views(ids@), stat_ids@[j]@) == Some(k as int),
                None => stat_owner(string_views(ids@), stat_ids@[j]@) is None,
            },
{
    let mut out: Vec<Option<usize>> = Vec::new();
    let mut j: usize = 0;
    while j < stat_ids.len()
        invariant
            j <= stat_ids@.len(),
            out@.len() == j,
            forall|q: int|
                0 <= q < j ==> match #[trigger] out@[q] {
                    Some(k) => stat_owner(string_views(ids@), stat_ids@[q]@) == Some(k as int),
                    None => stat_owner(string_views(ids@), stat_ids@[q]@) is None,
                },
        decreases stat_ids@.len() - j,
    {
        let sc = chars_of(stat_ids[j].as_str());
        let found = find_owner(ids, sc.as_slice());
        let ghost before = out@;
        out.push(found);
        assert(out@[j as int] == found);
        assert(forall|q: int| 0 <= q < j ==> out@[q] == before[q]);
        j += 1;
    }
    out
}

fn find_owner(ids: &[String], sc: &[char]) -> (r: Option<usize>)
    ensures
        match r {
            Some(k) => stat_owner(string_views(ids@), sc@) == Some(k as int),
            None => stat_owner(string_views(ids@), sc@) is None,
        },
{
    let mut i: usize = 0;
    while i < ids.len()
        invariant
            i <= ids@.len(),
            stat_owner(string_views(ids@).take(i as int), sc@) is None,
        decreases ids@.len() - i,
    {
        assert(string_views(ids@).take(i as int + 1).drop_last() =~= string_views(ids@).take(
            i as int,
        ));
        let ic = chars_of(ids[i].as_str());
        if crate::text::starts_with(sc, ic.as_slice()) {
            proof {
                lemma_stat_owner_found(string_views(ids@), sc@, i as int);
            }
            return Some(i);
        }
        i += 1;
    }
    assert(string_views(ids@).take(ids@.len() as int) =~= string_views(ids@));
    None
}

proof fn lemma_stat_owner_found(ids: Seq<Seq<char>>, s: Seq<char>, i: int)
    requires
        0 <= i < ids.len(),
        stat_owner(ids.take(i), s) is None,
        has_prefix(s, ids[i]),
    ensures
        stat_owner(ids, s) == Some(i),
    decreases ids.len(),
{
    if ids.len() == i + 1 {
        assert(ids.drop_last() =~= ids.take(i));
    } else {
        assert(ids.drop_last().take(i) =~= ids.take(i));
        lemma_stat_owner_found(ids.drop_last(), s, i);
    }
}

/// The unit a memory figure of `docker stats` is given in.
#[derive(Clone, Copy, Debug, PartialEq, Eq, Structural)]
pub enum MemUnit {
    Gib,
    Mib,
    Kib,
}

/// `s` without the suffix `p`, when it ends with it.
pub open spec fn strip_suffix_seq(s: Seq<char>, p: Seq<char>) -> Option<Seq<char>> {
    if p.len() <= s.len() && s.skip(s.len() - p.len()) == p {
        Some(s.take(s.len() - p.len()))
    } else {
        None
    }
}

/// The number and unit of the usage part of a `MemUsage` field such as
/// `"1.5GiB / 7.6GiB"`: the text before the first `/`, trimmed, whose unit
/// suffix is `GiB`, `MiB` or `KiB` (tried in that order); the number is
/// trimmed.
pub open spec fn mem_usage_parts(s: Seq<char>) -> Option<(Seq<char>, MemUnit)> {
    let usage = trim(split_sep(s, '/')[0]);
    match strip_suffix_seq(usage, "GiB"@) {
        Some(v) => Some((trim(v), MemUnit::Gib)),
        None => match strip_suffix_seq(usage, "MiB"@) {
            Some(v) => Some((trim(v), MemUnit::Mib)),
            None => match strip_suffix_seq(usage, "KiB"@) {
                Some(v) => Some((trim(v), MemUnit::Kib)),
                None => None,
            },
        },
    }
}

fn strip_suffix_chars(s: &[char], p: &str) -> (r: Option<Vec<char>>)
    ensures
        match strip_suffix_seq(s@, p@) {
            Some(v) => r is Some && r.unwrap()@ == v,
            None => r is None,
        },
{
    let pc = chars_of(p);
    if pc.len() > s.len() {
        return None;
    }
    let (head, tail) = s.split_at(s.len() - pc.len());
    assert(tail@ =~= s@.skip(s@.len() - p@.len()));
    assert(head@ =~= s@.take(s@.len() - p@.len()));
    if crate::text::chars_eq(tail, pc.as_slice()) {
        let mut out: Vec<char> = Vec::new();
        let mut i: usize = 0;
        while i < head.len()
            invariant
                i <= head@.len(),
                out@ == head@.take(i as int),
            decreases head@.len() - i,
        {
            out.push(head[i]);
            i += 1;
            assert(out@ =~= head@.take(i as int));
        }
        assert(head@.take(head@.len() as int) =~= head@);
        Some(out)
    } else {
        None
    }
}

/// Split the `MemUsage` field of `docker stats` into the number text and
/// the unit of the memory in use.
pub fn split_mem_usage(s: &str) -> (r: Option<(String, MemUnit)>)
    ensures
        match mem_usage_parts(s@) {
            Some((v, u)) => r is Some && r.unwrap().0@ == v && r.unwrap().1 == u,
            None => r is None,
        },
{
    let cs = chars_of(s);
    let parts = split_on(cs.as_slice(), '/');
    proof {
        assert(views(parts@).len() == parts@.len());
        assert(views(parts@)[0] == parts@[0]@);
    }
    let usage = trim_chars(parts[0].as_slice());
    match strip_suffix_chars(usage.as_slice(), "GiB") {
        Some(v) => Some((string_of(trim_chars(v.as_slice()).as_slice()), MemUnit::Gib)),
        None => match strip_suffix_chars(usage.as_slice(), "MiB") {
            Some(v) => Some((string_of(trim_chars(v.as_slice()).as_slice()), MemUnit::Mib)),
            None => match strip_suffix_chars(usage.as_slice(), "KiB") {
                Some(v) => Some((string_of(trim_chars(v.as_slice()).as_slice()), MemUnit::Kib)),
                None => None,
            },
        },
    }
}

/// The number text of a `CPUPerc` field such as `"12.5%"`: every trailing
/// `%` removed, then trimmed.
pub fn percentage_text(s: &str) -> (r: String)
    ensures
        r@ == trim(strip_suffix_all(s@, "%"@)),
{
    let cs = chars_of(s);
    let mut end: usize = cs.len();
    assert(cs@.take(end as int) =~= cs@);
    while end > 0 && cs[end - 1] == '%'
        invariant
            end <= cs@.len(),
            strip_suffix_all(cs@.take(end as int), "%"@) == strip_suffix_all(cs@, "%"@),
        decreases end,
    {
        proof {
            reveal_strlit("%");
            assert(cs@.take(end as int).skip(end - 1) =~= "%"@);
            assert(cs@.take(end as int).take(end - 1) =~= cs@.take(end - 1));
        }
        end -= 1;
    }
    proof {
        reveal_strlit("%");
        let t = cs@.take(end as int);
        assert("%"@ =~= seq!['%']);
        if t.len() >= 1 {
            assert(cs@[end - 1] != '%');
            assert(t.last() == cs@[end - 1]);
            assert(t.skip(t.len() - 1)[0] != '%');
            assert(t.skip(t.len() - 1) =~= seq![t.last()]);
            assert(t.skip(t.len() - 1) != "%"@);
        }
        assert(strip_suffix_all(t, "%"@) == t);
    }
    let head = cs.split_at(end).0;
    assert(head@ =~= cs@.take(end as int));
    string_of(trim_chars(head).as_slice())
}

} // verus!
