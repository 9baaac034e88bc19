//! Memory and swap usage, with the cached and buffer sizes that
//! `/proc/meminfo` reports.

use vstd::prelude::*;

use crate::number::{parse_u64, parse_unsigned};
use crate::text::{chars_of, has_prefix, split_lines, split_whitespace, strip_prefix_str, tokens, lines, views};

verus! {

/// Memory and swap usage, in bytes.
#[derive(Clone, Copy, Debug, PartialEq, Eq, Structural)]
pub struct MemorySnapshot {
    pub used: u64,
    pub free: u64,
    pub total: u64,
    /// Cached memory (from /proc/meminfo on Linux).
    pub cached: u64,
    /// Buffer memory.
    pub buffers: u64,
    pub swap_used: u64,
    pub swap_total: u64,
}

/// The number of kB at the start of a `/proc/meminfo` value such as
/// `"   12345 kB"`: its first white-space separated token read as a `u64`,
/// or 0 when there is none or it is no such number.
pub open spec fn meminfo_kb(s: Seq<char>) -> nat {
    let ts = tokens(s);
    if ts.len() > 0 {
        match parse_unsigned(ts[0], 10, u64::MAX as nat) {
            Some(v) => v,
            None => 0,
        }
    } else {
        0
    }
}

fn value_kb(v: &[char]) -> (kb: u64)
    ensures
        kb == meminfo_kb(v@),
{
    let ts = split_whitespace(v);
    if ts.len() > 0 {
        proof {
            assert(views(ts@)[0] == ts@[0]@);
        }
        match parse_u64(ts[0].as_slice()) {
            Some(x) => x,
            None => 0,
        }
    } else {
        0
    }
}

/// Parse a /proc/meminfo value like "   12345 kB" into bytes.
pub fn parse_meminfo_kb(s: &str) -> (r: u64)
    requires
        meminfo_kb(s@) * 1024 <= u64::MAX,
    ensures
        r == meminfo_kb(s@) * 1024,
{
    let cs = chars_of(s);
    value_kb(cs.as_slice()) * 1024
}

/// Whether a `/proc/meminfo` line names the cached size.
pub open spec fn is_cached_line(l: Seq<char>) -> bool {
    has_prefix(l, "Cached:"@)
}

/// Whether a `/proc/meminfo` line names the buffer size.
pub open spec fn is_buffers_line(l: Seq<char>) -> bool {
    !is_cached_line(l) && has_prefix(l, "Buffers:"@)
}

/// The cached and buffer sizes in bytes after lines `ls`: each `Cached:`
/// or `Buffers:` line sets its size, later lines winning; 0 where none.
pub open spec fn cache_buffers_of(ls: Seq<Seq<char>>) -> (nat, nat)
    decreases ls.len(),
{
    if ls.len() == 0 {
        (0, 0)
    } else {
        let (c, b) = cache_buffers_of(ls.drop_last());
        let l = ls.last();
        if is_cached_line(l) {
            (meminfo_kb(l.skip(7)) * 1024, b)
        } else if is_buffers_line(l) {
            (c, meminfo_kb(l.skip(8)) * 1024)
        } else {
            (c, b)
        }
    }
}

/// Whether the size a `Cached:` or `Buffers:` line holds fits in a `u64`
/// of bytes.
pub open spec fn meminfo_line_fits(l: Seq<char>) -> bool {
    &&& is_cached_line(l) ==> meminfo_kb(l.skip(7)) * 1024 <= u64::MAX
    &&& is_buffers_line(l) ==> meminfo_kb(l.skip(8)) * 1024 <= u64::MAX
}

/// Whether every `Cached:` and `Buffers:` line holds a size whose bytes fit
/// in a `u64`.
pub open spec fn meminfo_sizes_fit(ls: Seq<Seq<char>>) -> bool {
    forall|i: int| 0 <= i < ls.len() ==> meminfo_line_fits(#[trigger] ls[i])
}

/// Whether the sizes of `/proc/meminfo` contents fit in a `u64` of bytes,
/// which [`parse_cache_buffers`] needs.
pub fn meminfo_fits(contents: &str) -> (r: bool)
    ensures
        r == meminfo_sizes_fit(lines(contents@)),
{
    let cs = chars_of(contents);
    let ls = split_lines(cs.as_slice());
    let ghost vs = views(ls@);
    let mut i: usize = 0;
    while i < ls.len()
        invariant
            i <= ls@.len(),
            vs == views(ls@),
            vs == lines(contents@),
            forall|k: int| 0 <= k < i ==> meminfo_line_fits(#[trigger] vs[k]),
        decreases ls@.len() - i,
    {
        assert(vs[i as int] == ls@[i as int]@);
        proof {
            reveal_strlit("Cached:");
            reveal_strlit("Buffers:");
        }
        let line = ls[i].as_slice();
        match strip_prefix_str(line, "Cached:") {
            Some(v) => {
                let kb = value_kb(v.as_slice());
                if kb.checked_mul(1024).is_none() {
                    assert(!meminfo_line_fits(vs[i as int]));
                    return false;
                }
            },
            None => match strip_prefix_str(line, "Buffers:") {
                Some(v) => {
                    let kb = value_kb(v.as_slice());
                    if kb.checked_mul(1024).is_none() {
                        assert(!meminfo_line_fits(vs[i as int]));
                        return false;
                    }
                },
                None => {},
            },
        }
        assert(meminfo_line_fits(vs[i as int]));
        i += 1;
    }
    true
}

/// Parse the contents of /proc/meminfo for the Cached and Buffers sizes,
/// in bytes.
pub fn parse_cache_buffers(contents: &str) -> (r: (u64, u64))
    requires
        meminfo_sizes_fit(lines(contents@)),
    ensures
        (r.0 as nat, r.1 as nat) == cache_buffers_of(lines(contents@)),
{
    let cs = chars_of(contents);
    let ls = split_lines(cs.as_slice());
    let ghost vs = views(ls@);
    let mut cached: u64 = 0;
    let mut buffers: u64 = 0;
    let mut i: usize = 0;
    while i < ls.len()
        invariant
            i <= ls@.len(),
            vs == views(ls@),
            meminfo_sizes_fit(vs),
            (cached as nat, buffers as nat) == cache_buffers_of(vs.take(i as int)),
        decreases ls@.len() - i,
    {
        assert(vs[i as int] == ls@[i as int]@);
        proof {
            reveal_strlit("Cached:");
            reveal_strlit("Buffers:");
        }
        assert(vs.take(i as int + 1).drop_last() =~= vs.take(i as int));
        assert(vs.take(i as int + 1).last() == vs[i as int]);
        assert(meminfo_line_fits(vs[i as int]));
        let line = ls[i].as_slice();
        match strip_prefix_str(line, "Cached:") {
            Some(v) => {
                let text = crate::text::string_of(v.as_slice());
                assert(is_cached_line(vs[i as int]));
                cached = parse_meminfo_kb(text.as_str());
            },
            None => match strip_prefix_str(line, "Buffers:") {
                Some(v) => {
                    let text = crate::text::string_of(v.as_slice());
                    assert(is_buffers_line(vs[i as int]));
                    buffers = parse_meminfo_kb(text.as_str());
                },
                None => {},
            },
        }
        i += 1;
    }
    assert(vs.take(ls@.len() as int) =~= vs);
    (cached, buffers)
}

impl MemorySnapshot {
    /// A snapshot from the totals the system reports and the contents of
    /// `/proc/meminfo` (`None` where it could not be read, which leaves the
    /// cached and buffer sizes at 0).
    pub fn new(
        total: u64,
        used: u64,
        free: u64,
        swap_total: u64,
        swap_used: u64,
        meminfo: &Option<String>,
    ) -> (r: MemorySnapshot)
        requires
            meminfo matches Some(c) ==> meminfo_sizes_fit(lines(c@)),
        ensures
            r.total == total && r.used == used && r.free == free,
            r.swap_total == swap_total && r.swap_used == swap_used,
            (r.cached as nat, r.buffers as nat) == match meminfo {
                Some(c) => cache_buffers_of(lines(c@)),
                None => (0nat, 0nat),
            },
    {
        let (cached, buffers) = match meminfo {
            Some(c) => parse_cache_buffers(c.as_str()),
            None => (0, 0),
        };
        MemorySnapshot { used, free, total, cached, buffers, swap_used, swap_total }
    }
}

} // verus!
