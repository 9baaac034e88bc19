//! Process control, process anomaly flags, and the fields the monitor
//! reads from `/proc/<pid>/status`, `/proc/<pid>/stat` and `/etc/passwd`.

use vstd::prelude::*;

use crate::system::fan::{lemma_seq_order_flip, order_chars, seq_order};
use crate::number::{decimal, decimal_string, parse_i32, parse_i32_spec, parse_u32, parse_unsigned};
use crate::text::{
    chars_of, has_prefix, lines, split_lines, split_on, split_sep, split_whitespace, string_of,
    strip_prefix_str, tokens, trim, trim_chars, views,
};

verus! {

/// Flags for anomaly detection on individual processes.
#[derive(Clone, Copy, Debug, Default, PartialEq, Eq, Structural)]
pub struct ProcessAnomaly {
    pub high_cpu: bool,
    pub high_memory: bool,
    pub suspicious: bool,
}

/// Supported signals for process control.
#[derive(Clone, Copy, Debug, PartialEq, Eq, Structural)]
pub enum Signal {
    Term,
    Kill,
    Stop,
    Cont,
    Custom(i32),
}

// ── /proc/<pid>/status ──────────────────────────────────────────────────────

/// A value of `/proc/<pid>/status` read as a `u32`.
pub open spec fn status_u32(v: Seq<char>) -> Option<u32> {
    match parse_unsigned(v, 10, u32::MAX as nat) {
        Some(n) => Some(n as u32),
        None => None,
    }
}

/// The thread count of the first `Threads:` line among `ls` whose value,
/// trimmed, is a `u32`.
pub open spec fn threads_of(ls: Seq<Seq<char>>) -> Option<u32>
    decreases ls.len(),
{
    if ls.len() == 0 {
        None
    } else if has_prefix(ls[0], "Threads:"@) && status_u32(trim(ls[0].skip(8))) is Some {
        status_u32(trim(ls[0].skip(8)))
    } else {
        threads_of(ls.drop_first())
    }
}

/// The thread count that the contents of `/proc/<pid>/status` give.
pub fn thread_count(status: &str) -> (r: Option<u32>)
    ensures
        r == threads_of(lines(status@)),
{
    let cs = chars_of(status);
    let ls = split_lines(cs.as_slice());
    let ghost vs = views(ls@);
    let mut i: usize = 0;
    assert(vs.skip(0) =~= vs);
    while i < ls.len()
        invariant
            i <= ls@.len(),
            vs == views(ls@),
            vs == lines(status@),
            threads_of(vs) == threads_of(vs.skip(i as int)),
        decreases ls@.len() - i,
    {
        assert(vs.skip(i as int)[0] == ls@[i as int]@);
        assert(vs.skip(i as int).drop_first() =~= vs.skip(i as int + 1));
        proof {
            reveal_strlit("Threads:");
        }
        match strip_prefix_str(ls[i].as_slice(), "Threads:") {
            Some(v) => {
                let t = trim_chars(v.as_slice());
                match parse_u32(t.as_slice()) {
                    Some(n) => {
                        return Some(n);
                    },
                    None => {},
                }
            },
            None => {},
        }
        i += 1;
    }
    None
}

/// The user-id text of a `Uid:` value: its first token, or "0" when it has
/// none.
pub open spec fn uid_field(v: Seq<char>) -> Seq<char> {
    let ts = tokens(v);
    if ts.len() > 0 {
        ts[0]
    } else {
        "0"@
    }
}

/// The real user id of the first `Uid:` line among `ls` whose first field
/// is a `u32`.
pub open spec fn uid_of(ls: Seq<Seq<char>>) -> Option<u32>
    decreases ls.len(),
{
    if ls.len() == 0 {
        None
    } else if has_prefix(ls[0], "Uid:"@) && status_u32(uid_field(ls[0].skip(4))) is Some {
        status_u32(uid_field(ls[0].skip(4)))
    } else {
        uid_of(ls.drop_first())
    }
}

/// The real user id that the contents of `/proc/<pid>/status` give.
pub fn process_uid(status: &str) -> (r: Option<u32>)
    ensures
        r == uid_of(lines(status@)),
{
    let cs = chars_of(status);
    let ls = split_lines(cs.as_slice());
    let ghost vs = views(ls@);
    let mut i: usize = 0;
    assert(vs.skip(0) =~= vs);
    while i < ls.len()
        invariant
            i <= ls@.len(),
            vs == views(ls@),
            vs == lines(status@),
            uid_of(vs) == uid_of(vs.skip(i as int)),
        decreases ls@.len() - i,
    {
        assert(vs.skip(i as int)[0] == ls@[i as int]@);
        assert(vs.skip(i as int).drop_first() =~= vs.skip(i as int + 1));
        proof {
            reveal_strlit("Uid:");
            reveal_strlit("0");
        }
        match strip_prefix_str(ls[i].as_slice(), "Uid:") {
            Some(v) => {
                let ts = split_whitespace(v.as_slice());
                let parsed = if ts.len() > 0 {
                    proof {
                        assert(views(ts@)[0] == ts@[0]@);
                    }
                    parse_u32(ts[0].as_slice())
                } else {
                    let zero = chars_of("0");
                    parse_u32(zero.as_slice())
                };
                match parsed {
                    Some(n) => {
                        return Some(n);
                    },
                    None => {},
                }
            },
            None => {},
        }
        i += 1;
    }
    None
}

// ── /etc/passwd ─────────────────────────────────────────────────────────────

/// The user name of the first line among `ls` with at least three
/// `:`-separated fields whose third field is the user id `uid`.
pub open spec fn passwd_name(ls: Seq<Seq<char>>, uid: u32) -> Option<Seq<char>>
    decreases ls.len(),
{
    if ls.len() == 0 {
        None
    } else {
        let f = split_sep(ls[0], ':');
        if f.len() >= 3 && status_u32(f[2]) == Some(uid) {
            Some(f[0])
        } else {
            passwd_name(ls.drop_first(), uid)
        }
    }
}

/// A passwd entry `name:password:uid:rest` gives `name` for the user id in
/// its third field, whatever the group id and the fields after it, and the
/// first such entry wins over any later ones.
pub proof fn passwd_name_by_user_id(
    name: Seq<char>,
    password: Seq<char>,
    uid_field: Seq<char>,
    rest: Seq<char>,
    later: Seq<Seq<char>>,
    uid: u32,
)
    requires
        forall|i: int| 0 <= i < name.len() ==> name[i] != ':',
        forall|i: int| 0 <= i < password.len() ==> password[i] != ':',
        forall|i: int| 0 <= i < uid_field.len() ==> uid_field[i] != ':',
        parse_unsigned(uid_field, 10, u32::MAX as nat) == Some(uid as nat),
    ensures
        passwd_name(
            seq![name + ":"@ + password + ":"@ + uid_field + ":"@ + rest] + later,
            uid,
        ) == Some(name),
{
    reveal_strlit(":");
    let line = name + ":"@ + password + ":"@ + uid_field + ":"@ + rest;
    assert(":"@ =~= seq![':']);
    crate::text::lemma_three_fields(name, password, uid_field, rest, ':');
    assert(line =~= name + seq![':'] + password + seq![':'] + uid_field + seq![':'] + rest);
    let ls = seq![line] + later;
    assert(ls[0] == line);
    assert(ls.len() > 0);
}

/// The user name of `uid` in the contents of `/etc/passwd`, or the number
/// itself when no entry has it.
pub fn uid_to_name(uid: u32, passwd: &str) -> (r: String)
    ensures
        r@ == match passwd_name(lines(passwd@), uid) {
            Some(n) => n,
            None => decimal(uid as nat),
        },
{
    let cs = chars_of(passwd);
    let ls = split_lines(cs.as_slice());
    let ghost vs = views(ls@);
    let mut i: usize = 0;
    assert(vs.skip(0) =~= vs);
    while i < ls.len()
        invariant
            i <= ls@.len(),
            vs == views(ls@),
            vs == lines(passwd@),
            passwd_name(vs, uid) == passwd_name(vs.skip(i as int), uid),
        decreases ls@.len() - i,
    {
        assert(vs.skip(i as int)[0] == ls@[i as int]@);
        assert(vs.skip(i as int).drop_first() =~= vs.skip(i as int + 1));
        let fields = split_on(ls[i].as_slice(), ':');
        if fields.len() >= 3 {
            proof {
                assert(views(fields@)[0] == fields@[0]@);
                assert(views(fields@)[2] == fields@[2]@);
            }
            match parse_u32(fields[2].as_slice()) {
                Some(n) => {
                    if n == uid {
                        return string_of(fields[0].as_slice());
                    }
                },
                None => {},
            }
        }
        i += 1;
    }
    decimal_string(uid as u64)
}

/// The user that owns a process: the name of the user id in its
/// `/proc/<pid>/status` contents, looked up in the contents of
/// `/etc/passwd` (`None` when that file could not be read, which gives the
/// number); "?" when the status has no user id.
pub fn process_user(status: &str, passwd: &Option<String>) -> (r: String)
    ensures
        r@ == match uid_of(lines(status@)) {
            Some(u) => match passwd {
                Some(p) => match passwd_name(lines(p@), u) {
                    Some(n) => n,
                    None => decimal(u as nat),
                },
                None => decimal(u as nat),
            },
            None => "?"@,
        },
{
    match process_uid(status) {
        Some(u) => match passwd {
            Some(p) => uid_to_name(u, p.as_str()),
            None => decimal_string(u as u64),
        },
        None => {
            proof {
                reveal_strlit("?");
            }
            "?".to_owned()
        },
    }
}

// ── /proc/<pid>/stat ────────────────────────────────────────────────────────

/// The position of the last `c` in `s`.
pub open spec fn last_index_of(s: Seq<char>, c: char) -> Option<int>
    decreases s.len(),
{
    if s.len() == 0 {
        None
    } else if s.last() == c {
        Some(s.len() - 1)
    } else {
        last_index_of(s.drop_last(), c)
    }
}

/// Whether the fields after the command name of `/proc/<pid>/stat` can be
/// cut out as the monitor does: a `)` must be followed by one more
/// single-byte character (the space before the state field).
pub open spec fn stat_cut_ok(s: Seq<char>) -> bool {
    match last_index_of(s, ')') {
        Some(p) => p + 1 < s.len() && (s[p + 1] as u32) < 0x80,
        None => true,
    }
}

/// The nice value in the contents of `/proc/<pid>/stat`: field 19 overall,
/// that is the 17th white-space separated field after the `)` that closes
/// the command name and the character after it; 0 when there is no `)`,
/// too few fields, or no `i32` there.
pub open spec fn nice_of(s: Seq<char>) -> i32 {
    match last_index_of(s, ')') {
        Some(p) => {
            let f = tokens(s.skip(p + 2));
            if f.len() > 16 {
                match parse_i32_spec(f[16]) {
                    Some(v) => v as i32,
                    None => 0,
                }
            } else {
                0
            }
        },
        None => 0,
    }
}

fn last_paren(cs: &[char]) -> (r: Option<usize>)
    ensures
        match last_index_of(cs@, ')') {
            Some(p) => r == Some(p as usize) && 0 <= p < cs@.len(),
            None => r is None,
        },
        r is Some ==> r.unwrap() < cs@.len(),
{
    let mut i: usize = cs.len();
    assert(cs@.take(i as int) =~= cs@);
    while i > 0 && cs[i - 1] != ')'
        invariant
            i <= cs@.len(),
            last_index_of(cs@, ')') == last_index_of(cs@.take(i as int), ')'),
        decreases i,
    {
        assert(cs@.take(i as int).drop_last() =~= cs@.take(i - 1));
        i -= 1;
    }
    if i == 0 {
        assert(cs@.take(0) =~= Seq::<char>::empty());
        None
    } else {
        assert(last_index_of(cs@.take(i as int), ')') == Some(i - 1));
        Some(i - 1)
    }
}

/// Whether the contents of `/proc/<pid>/stat` can be cut after the command
/// name, which [`nice_value`] needs.
pub fn stat_cuttable(stat: &str) -> (r: bool)
    ensures
        r == stat_cut_ok(stat@),
{
    let cs = chars_of(stat);
    let n = cs.len();
    match last_paren(cs.as_slice()) {
        Some(p) => p + 1 < n && (cs[p + 1] as u32) < 0x80,
        None => true,
    }
}

/// The nice value that the contents of `/proc/<pid>/stat` give.
pub fn nice_value(stat: &str) -> (r: i32)
    requires
        stat_cut_ok(stat@),
    ensures
        r == nice_of(stat@),
{
    let cs = chars_of(stat);
    let p = match last_paren(cs.as_slice()) {
        Some(p) => p,
        None => {
            return 0;
        },
    };
    let n = cs.len();
    assert(p + 2 <= n);
    let rest = cs.split_at(p + 2).1;
    assert(rest@ =~= cs@.skip(p + 2));
    let fields = split_whitespace(rest);
    if fields.len() > 16 {
        proof {
            assert(views(fields@)[16] == fields@[16]@);
        }
        match parse_i32(fields[16].as_slice()) {
            Some(v) => v,
            None => 0,
        }
    } else {
        0
    }
}

// ── Process table order ─────────────────────────────────────────────────────

/// `s` with index `x` inserted after every index that need not come after
/// it (`after(a, b)`: `a` belongs after `b`).
pub open spec fn insert_index(s: Seq<usize>, x: usize, after: spec_fn(usize, usize) -> bool) -> Seq<
    usize,
>
    decreases s.len(),
{
    if s.len() == 0 {
        seq![x]
    } else if after(s.last(), x) {
        insert_index(s.drop_last(), x, after).push(s.last())
    } else {
        s.push(x)
    }
}

/// The indices `0..n` in the order `after` gives them, indices that tie
/// kept in increasing order (a stable sort).
pub open spec fn stable_order(n: nat, after: spec_fn(usize, usize) -> bool) -> Seq<usize>
    decreases n,
{
    if n == 0 {
        seq![]
    } else {
        insert_index(stable_order((n - 1) as nat, after), (n - 1) as usize, after)
    }
}

/// By PID: a process belongs after one with a smaller PID.
pub open spec fn pid_after(pids: Seq<u32>) -> spec_fn(usize, usize) -> bool {
    |a: usize, b: usize| pids[a as int] > pids[b as int]
}

/// By name, in the order of Rust strings.
pub open spec fn name_after(names: Seq<Seq<char>>) -> spec_fn(usize, usize) -> bool {
    |a: usize, b: usize| seq_order(names[a as int], names[b as int]) > 0
}

proof fn lemma_insert_index_at(
    s: Seq<usize>,
    x: usize,
    after: spec_fn(usize, usize) -> bool,
    j: int,
)
    requires
        0 <= j <= s.len(),
        forall|k: int| j <= k < s.len() ==> after(#[trigger] s[k], x),
        j > 0 ==> !after(s[j - 1], x),
    ensures
        insert_index(s, x, after) == s.take(j).push(x) + s.skip(j),
    decreases s.len(),
{
    if s.len() == 0 {
        assert(s.take(j).push(x) + s.skip(j) =~= seq![x]);
    } else if j == s.len() {
        assert(s.take(j).push(x) + s.skip(j) =~= s.push(x));
    } else {
        lemma_insert_index_at(s.drop_last(), x, after, j);
        assert(s.drop_last().take(j) =~= s.take(j));
        assert(s.take(j).push(x) + s.skip(j) =~= (s.take(j).push(x) + s.drop_last().skip(j)).push(
            s.last(),
        ));
    }
}

/// The order of the process table by PID: the positions of `pids`, smaller
/// PIDs first, equal PIDs in their listed order.
pub fn pid_order(pids: &[u32]) -> (r: Vec<usize>)
    ensures
        r@ == stable_order(pids@.len(), pid_after(pids@)),
{
    let ghost after = pid_after(pids@);
    let mut out: Vec<usize> = Vec::new();
    let mut i: usize = 0;
    while i < pids.len()
        invariant
            i <= pids@.len(),
            after == pid_after(pids@),
            out@ == stable_order(i as nat, after),
            forall|k: int| 0 <= k < out@.len() ==> #[trigger] out@[k] < i,
        decreases pids@.len() - i,
    {
        let mut j: usize = out.len();
        while j > 0 && pids[out[j - 1]] > pids[i]
            invariant
                j <= out@.len(),
                i < pids@.len(),
                forall|k: int| 0 <= k < out@.len() ==> #[trigger] out@[k] < i,
                forall|k: int| j <= k < out@.len() ==> after(#[trigger] out@[k], i),
                after == pid_after(pids@),
            decreases j,
        {
            j -= 1;
        }
        let ghost prev = out@;
        proof {
            lemma_insert_index_at(prev, i, after, j as int);
        }
        out.insert(j, i);
        assert(out@ =~= prev.take(j as int).push(i) + prev.skip(j as int));
        assert forall|k: int| 0 <= k < out@.len() implies #[trigger] out@[k] < i + 1 by {
            if k < j {
                assert(out@[k] == prev[k]);
            } else if k > j {
                assert(out@[k] == prev[k - 1]);
            }
        }
        i += 1;
    }
    out
}

/// The order of the process table by name: the positions of `names`, in
/// the order of Rust strings, equal names in their listed order.
pub fn name_order(names: &[String]) -> (r: Vec<usize>)
    ensures
        r@ == stable_order(names@.len(), name_after(names@.map_values(|n: String| n@))),
{
    let ghost vs = names@.map_values(|n: String| n@);
    let ghost after = name_after(vs);
    let mut cs: Vec<Vec<char>> = Vec::new();
    let mut k: usize = 0;
    while k < names.len()
        invariant
            k <= names@.len(),
            cs@.len() == k,
            forall|q: int| 0 <= q < k ==> #[trigger] cs@[q]@ == names@[q]@,
        decreases names@.len() - k,
    {
        cs.push(chars_of(names[k].as_str()));
        k += 1;
    }
    let mut out: Vec<usize> = Vec::new();
    let mut i: usize = 0;
    while i < names.len()
        invariant
            i <= names@.len(),
            cs@.len() == names@.len(),
            forall|q: int| 0 <= q < names@.len() ==> #[trigger] cs@[q]@ == vs[q],
            vs == names@.map_values(|n: String| n@),
            after == name_after(vs),
            out@ == stable_order(i as nat, after),
            forall|q: int| 0 <= q < out@.len() ==> #[trigger] out@[q] < i,
        decreases names@.len() - i,
    {
        let mut j: usize = out.len();
        while j > 0 && order_chars(cs[out[j - 1]].as_slice(), cs[i].as_slice()) > 0
            invariant
                j <= out@.len(),
                i < names@.len(),
                cs@.len() == names@.len(),
                forall|q: int| 0 <= q < names@.len() ==> #[trigger] cs@[q]@ == vs[q],
                forall|q: int| 0 <= q < out@.len() ==> #[trigger] out@[q] < i,
                forall|q: int| j <= q < out@.len() ==> after(#[trigger] out@[q], i),
                after == name_after(vs),
            decreases j,
        {
            j -= 1;
        }
        let ghost prev = out@;
        proof {
            lemma_insert_index_at(prev, i, after, j as int);
        }
        out.insert(j, i);
        assert(out@ =~= prev.take(j as int).push(i) + prev.skip(j as int));
        assert forall|q: int| 0 <= q < out@.len() implies #[trigger] out@[q] < i + 1 by {
            if q < j {
                assert(out@[q] == prev[q]);
            } else if q > j {
                assert(out@[q] == prev[q - 1]);
            }
        }
        i += 1;
    }
    out
}

/// No index of `s` belongs after the one that follows it.
pub open spec fn in_order(s: Seq<usize>, after: spec_fn(usize, usize) -> bool) -> bool {
    forall|i: int| 0 <= i < s.len() - 1 ==> !after(#[trigger] s[i], s[i + 1])
}

proof fn lemma_insert_index_sorted(s: Seq<usize>, x: usize, after: spec_fn(usize, usize) -> bool)
    requires
        in_order(s, after),
        forall|a: usize, b: usize| #[trigger] after(a, b) ==> !after(b, a),
    ensures
        in_order(insert_index(s, x, after), after),
        insert_index(s, x, after).len() == s.len() + 1,
        insert_index(s, x, after).last() == x || (s.len() > 0 && insert_index(s, x, after).last()
            == s.last()),
        insert_index(s, x, after).to_multiset() == s.to_multiset().insert(x),
    decreases s.len(),
{
    broadcast use vstd::seq_lib::group_seq_properties;

    if s.len() == 0 {
        assert(seq![x] =~= Seq::<usize>::empty().push(x));
    } else if after(s.last(), x) {
        let t = s.drop_last();
        assert(in_order(t, after)) by {
            assert forall|i: int| 0 <= i < t.len() - 1 implies !after(#[trigger] t[i], t[i + 1]) by {
                assert(t[i] == s[i] && t[i + 1] == s[i + 1]);
            }
        }
        lemma_insert_index_sorted(t, x, after);
        let u = insert_index(t, x, after);
        let r = u.push(s.last());
        if t.len() > 0 {
            assert(!after(s[s.len() - 2], s[s.len() - 1]));
            assert(t.last() == s[s.len() - 2]);
        }
        assert(!after(u.last(), s.last()));
        assert forall|i: int| 0 <= i < r.len() - 1 implies !after(#[trigger] r[i], r[i + 1]) by {
            if i < u.len() - 1 {
                assert(r[i] == u[i] && r[i + 1] == u[i + 1]);
            } else {
                assert(r[i] == u.last() && r[i + 1] == s.last());
            }
        }
        assert(s =~= t.push(s.last()));
        assert(t.push(s.last()).to_multiset() == t.to_multiset().insert(s.last()));
        assert(r.to_multiset() =~= s.to_multiset().insert(x));
    } else {
        let r = s.push(x);
        assert forall|i: int| 0 <= i < r.len() - 1 implies !after(#[trigger] r[i], r[i + 1]) by {
            if i < s.len() - 1 {
                assert(r[i] == s[i] && r[i + 1] == s[i + 1]);
            } else {
                assert(r[i] == s.last() && r[i + 1] == x);
            }
        }
    }
}

/// The indices `0..n`.
pub open spec fn all_indices(n: nat) -> Seq<usize> {
    Seq::new(n, |i: int| i as usize)
}

/// Ordering the process table lists every position exactly once, and no
/// position belongs after the one that follows it, for any order in which
/// two positions never each belong after the other.
pub proof fn stable_order_sorts(n: nat, after: spec_fn(usize, usize) -> bool)
    requires
        forall|a: usize, b: usize| #[trigger] after(a, b) ==> !after(b, a),
    ensures
        in_order(stable_order(n, after), after),
        stable_order(n, after).to_multiset() == all_indices(n).to_multiset(),
    decreases n,
{
    broadcast use vstd::seq_lib::group_seq_properties;

    if n > 0 {
        let m = (n - 1) as nat;
        stable_order_sorts(m, after);
        lemma_insert_index_sorted(stable_order(m, after), m as usize, after);
        assert(all_indices(n) =~= all_indices(m).push(m as usize));
        assert(all_indices(m).push(m as usize).to_multiset() == all_indices(m).to_multiset().insert(
            m as usize,
        ));
    } else {
        assert(all_indices(n) =~= Seq::<usize>::empty());
    }
}

/// The process table by PID and by name is in order: each PID is at most
/// the next, each name orders at or before the next.
pub proof fn table_orders_hold(pids: Seq<u32>, names: Seq<Seq<char>>)
    ensures
        forall|i: int|
            0 <= i < stable_order(pids.len(), pid_after(pids)).len() - 1 ==> pids[#[trigger] stable_order(
                pids.len(),
                pid_after(pids),
            )[i] as int] <= pids[stable_order(pids.len(), pid_after(pids))[i + 1] as int],
        forall|i: int|
            0 <= i < stable_order(names.len(), name_after(names)).len() - 1 ==> seq_order(
                names[#[trigger] stable_order(names.len(), name_after(names))[i] as int],
                names[stable_order(names.len(), name_after(names))[i + 1] as int],
            ) <= 0,
        stable_order(pids.len(), pid_after(pids)).to_multiset() == all_indices(pids.len()).to_multiset(),
        stable_order(names.len(), name_after(names)).to_multiset() == all_indices(
            names.len(),
        ).to_multiset(),
{
    let pa = pid_after(pids);
    let na = name_after(names);
    assert forall|a: usize, b: usize| #[trigger] pa(a, b) implies !pa(b, a) by {}
    assert forall|a: usize, b: usize| #[trigger] na(a, b) implies !na(b, a) by {
        lemma_seq_order_flip(names[a as int], names[b as int]);
    }
    stable_order_sorts(pids.len(), pa);
    stable_order_sorts(names.len(), na);
    let sp = stable_order(pids.len(), pa);
    let sn = stable_order(names.len(), na);
    assert forall|i: int| 0 <= i < sp.len() - 1 implies pids[#[trigger] sp[i] as int] <= pids[sp[i
        + 1] as int] by {
        assert(!pa(sp[i], sp[i + 1]));
    }
    assert forall|i: int| 0 <= i < sn.len() - 1 implies seq_order(
        names[#[trigger] sn[i] as int],
        names[sn[i + 1] as int],
    ) <= 0 by {
        assert(!na(sn[i], sn[i + 1]));
    }
}

} // verus!
