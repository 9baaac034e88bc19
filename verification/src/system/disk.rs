//! Disk usage per mount point and the byte counters of `/proc/diskstats`.

use vstd::prelude::*;

use crate::number::{parse_u64, parse_unsigned};
use crate::text::{chars_of, has_prefix, lines, split_lines, split_whitespace, starts_with, tokens, views};

verus! {

/// Per-mount-point disk usage.
#[derive(Clone, Debug)]
pub struct DiskInfo {
    pub name: String,
    pub mount: String,
    pub used: u64,
    pub total: u64,
    pub fs: String,
}

impl DiskInfo {
    /// The usage of a file system from its size and the space still
    /// available: the used space is the difference, 0 when more is
    /// available than its size.
    pub fn from_space(name: String, mount: String, total: u64, available: u64, fs: String) -> (r:
        DiskInfo)
        ensures
            r.name@ == name@ && r.mount@ == mount@ && r.fs@ == fs@,
            r.total == total,
            r.used == if available <= total {
                total - available
            } else {
                0
            },
    {
        DiskInfo { name, mount, used: total.saturating_sub(available), total, fs }
    }
}

/// Whether a block device name is a whole physical disk (`sdX`, `vdX`,
/// `nvme…` without a partition `p`), not a partition. The names `sdX` and
/// `vdX` are three bytes long, so their last character is ASCII.
pub open spec fn is_physical_disk(name: Seq<char>) -> bool {
    ||| has_prefix(name, "sd"@) && name.len() == 3 && (name[2] as u32) < 0x80
    ||| has_prefix(name, "nvme"@) && !name.contains('p')
    ||| has_prefix(name, "vd"@) && name.len() == 3 && (name[2] as u32) < 0x80
}

/// A field of `/proc/diskstats` read as a number of sectors, in bytes (512
/// per sector); 0 when it is no `u64`.
pub open spec fn sector_bytes(field: Seq<char>) -> nat {
    match parse_unsigned(field, 10, u64::MAX as nat) {
        Some(v) => v * 512,
        None => 0,
    }
}

/// What one line of `/proc/diskstats` adds to the bytes read and written:
/// the sectors read (field 5) and written (field 9) of a physical disk.
pub open spec fn diskstats_line(l: Seq<char>) -> (nat, nat) {
    let f = tokens(l);
    if f.len() >= 10 && is_physical_disk(f[2]) {
        (sector_bytes(f[5]), sector_bytes(f[9]))
    } else {
        (0, 0)
    }
}

/// The total bytes read and written that the lines `ls` report.
pub open spec fn diskstats_totals(ls: Seq<Seq<char>>) -> (nat, nat)
    decreases ls.len(),
{
    if ls.len() == 0 {
        (0, 0)
    } else {
        let (r, w) = diskstats_totals(ls.drop_last());
        let (dr, dw) = diskstats_line(ls.last());
        (r + dr, w + dw)
    }
}

proof fn lemma_totals_grow(ls: Seq<Seq<char>>, i: int)
    requires
        0 <= i <= ls.len(),
    ensures
        diskstats_totals(ls.take(i)).0 <= diskstats_totals(ls).0,
        diskstats_totals(ls.take(i)).1 <= diskstats_totals(ls).1,
    decreases ls.len() - i,
{
    if i < ls.len() {
        lemma_totals_grow(ls, i + 1);
        assert(ls.take(i + 1).drop_last() =~= ls.take(i));
    } else {
        assert(ls.take(i) =~= ls);
    }
}

fn is_disk_name(name: &[char]) -> (r: bool)
    ensures
        r == is_physical_disk(name@),
{
    let sd = chars_of("sd");
    let nvme = chars_of("nvme");
    let vd = chars_of("vd");
    let short = name.len() == 3 && (name[2] as u32) < 0x80;
    let mut has_p = false;
    let mut i: usize = 0;
    while i < name.len()
        invariant
            i <= name@.len(),
            has_p == exists|k: int| 0 <= k < i && name@[k] == 'p',
        decreases name@.len() - i,
    {
        if name[i] == 'p' {
            has_p = true;
        }
        i += 1;
    }
    proof {
        if name@.contains('p') {
            let k = choose|k: int| 0 <= k < name@.len() && name@[k] == 'p';
            assert(has_p);
        }
    }
    (starts_with(name, sd.as_slice()) && short) || (starts_with(name, nvme.as_slice()) && !has_p)
        || (starts_with(name, vd.as_slice()) && short)
}

fn field_bytes(field: &[char]) -> (r: Option<u64>)
    ensures
        r is Some <==> sector_bytes(field@) <= u64::MAX,
        r is Some ==> r.unwrap() == sector_bytes(field@),
{
    match parse_u64(field) {
        Some(v) => v.checked_mul(512),
        None => Some(0),
    }
}

/// Sum the bytes read and written by the physical disks that the contents
/// of `/proc/diskstats` list (512 bytes per sector), or `None` when a sum
/// does not fit in a `u64`.
pub fn checked_diskstats(contents: &str) -> (r: Option<(u64, u64)>)
    ensures
        r is Some <==> diskstats_totals(lines(contents@)).0 <= u64::MAX && diskstats_totals(
            lines(contents@),
        ).1 <= u64::MAX,
        r is Some ==> (r.unwrap().0 as nat, r.unwrap().1 as nat) == diskstats_totals(
            lines(contents@),
        ),
{
    let cs = chars_of(contents);
    let ls = split_lines(cs.as_slice());
    let ghost vs = views(ls@);
    let mut total_read: u64 = 0;
    let mut total_write: u64 = 0;
    let mut i: usize = 0;
    while i < ls.len()
        invariant
            i <= ls@.len(),
            vs == views(ls@),
            vs == lines(contents@),
            (total_read as nat, total_write as nat) == diskstats_totals(vs.take(i as int)),
        decreases ls@.len() - i,
    {
        assert(vs[i as int] == ls@[i as int]@);
        assert(vs.take(i as int + 1).drop_last() =~= vs.take(i as int));
        assert(vs.take(i as int + 1).last() == vs[i as int]);
        proof {
            lemma_totals_grow(vs, i as int + 1);
        }
        let fields = split_whitespace(ls[i].as_slice());
        if fields.len() >= 10 {
            proof {
                assert(views(fields@)[2] == fields@[2]@);
                assert(views(fields@)[5] == fields@[5]@);
                assert(views(fields@)[9] == fields@[9]@);
            }
            if is_disk_name(fields[2].as_slice()) {
                let r = field_bytes(fields[5].as_slice());
                let w = field_bytes(fields[9].as_slice());
                match (r, w) {
                    (Some(r), Some(w)) => match (total_read.checked_add(r), total_write.checked_add(w)) {
                        (Some(a), Some(b)) => {
                            total_read = a;
                            total_write = b;
                        },
                        _ => {
                            return None;
                        },
                    },
                    _ => {
                        return None;
                    },
                }
            }
        }
        i += 1;
    }
    assert(vs.take(ls@.len() as int) =~= vs);
    Some((total_read, total_write))
}

/// Sum the bytes read and written by the physical disks that the contents
/// of `/proc/diskstats` list (512 bytes per sector).
pub fn parse_diskstats(contents: &str) -> (r: (u64, u64))
    requires
        diskstats_totals(lines(contents@)).0 <= u64::MAX,
        diskstats_totals(lines(contents@)).1 <= u64::MAX,
    ensures
        (r.0 as nat, r.1 as nat) == diskstats_totals(lines(contents@)),
{
    match checked_diskstats(contents) {
        Some(t) => t,
        None => (0, 0),
    }
}

} // verus!
