//! GPUs: the vendor, the rows of `nvidia-smi`'s CSV output and the AMD
//! files of `/sys/class/drm`. The program runs the command, reads the files
//! and parses the floating-point readings.

use vstd::prelude::*;

use crate::number::{parse_u64, parse_unsigned};
use crate::system::fan::opt_view;
use crate::text::{
    chars_of, has_prefix, split_on, split_sep, string_of, trim, trim_chars,
    starts_with, views,
};

verus! {

/// The maker of a GPU.
#[derive(Clone, Copy, Debug, PartialEq, Eq, Structural)]
pub enum GpuVendor {
    Nvidia,
    Amd,
    Unknown,
}

/// One row of `nvidia-smi --query-gpu=name,utilization.gpu,memory.used,
/// memory.total,temperature.gpu,fan.speed,power.draw` in CSV form, the
/// floating-point readings left as text.
pub struct NvidiaRow {
    pub name: String,
    /// GPU utilization, as text.
    pub usage: String,
    /// Memory used in MiB (0 when it is no number).
    pub mem_used_mib: u64,
    /// Memory total in MiB (0 when it is no number).
    pub mem_total_mib: u64,
    /// Temperature, as text, when the row has that field.
    pub temperature: Option<String>,
    /// Fan speed, as text, when the row has that field.
    pub fan: Option<String>,
    /// Power draw, as text, when the row has that field.
    pub power: Option<String>,
}

/// The trimmed comma-separated fields of a CSV row.
pub open spec fn csv_fields(line: Seq<char>) -> Seq<Seq<char>> {
    split_sep(line, ',').map_values(|f: Seq<char>| trim(f))
}

/// A field read as a `u64`, or 0.
pub open spec fn u64_or_zero(f: Seq<char>) -> nat {
    match parse_unsigned(f, 10, u64::MAX as nat) {
        Some(v) => v,
        None => 0,
    }
}

/// The field at `i`, when the row has it.
pub open spec fn field_at(f: Seq<Seq<char>>, i: int) -> Option<Seq<char>> {
    if i < f.len() {
        Some(f[i])
    } else {
        None
    }
}

fn opt_field(fields: &Vec<Vec<char>>, i: usize) -> (r: Option<String>)
    ensures
        opt_view(r) == field_at(views(fields@), i as int),
{
    if i < fields.len() {
        proof {
            assert(views(fields@)[i as int] == fields@[i as int]@);
        }
        Some(string_of(fields[i].as_slice()))
    } else {
        None
    }
}

fn u64_field(f: &[char]) -> (r: u64)
    ensures
        r == u64_or_zero(f@),
{
    match parse_u64(f) {
        Some(v) => v,
        None => 0,
    }
}

/// Split a row of `nvidia-smi`'s CSV output into its fields; rows with
/// fewer than four fields give none.
pub fn parse_nvidia_row(line: &str) -> (r: Option<NvidiaRow>)
    ensures
        csv_fields(line@).len() < 4 ==> r is None,
        csv_fields(line@).len() >= 4 ==> (r matches Some(row) && {
            let f = csv_fields(line@);
            &&& row.name@ == f[0]
            &&& row.usage@ == f[1]
            &&& row.mem_used_mib == u64_or_zero(f[2])
            &&& row.mem_total_mib == u64_or_zero(f[3])
            &&& opt_view(row.temperature) == field_at(f, 4)
            &&& opt_view(row.fan) == field_at(f, 5)
            &&& opt_view(row.power) == field_at(f, 6)
        }),
{
    let cs = chars_of(line);
    let raw = split_on(cs.as_slice(), ',');
    let mut fields: Vec<Vec<char>> = Vec::new();
    let mut i: usize = 0;
    while i < raw.len()
        invariant
            i <= raw@.len(),
            views(raw@) == split_sep(cs@, ','),
            fields@.len() == i,
            forall|k: int| 0 <= k < i ==> #[trigger] fields@[k]@ == trim(raw@[k]@),
        decreases raw@.len() - i,
    {
        let t = trim_chars(raw[i].as_slice());
        fields.push(t);
        i += 1;
    }
    assert(views(fields@) =~= csv_fields(line@)) by {
        assert forall|k: int| 0 <= k < fields@.len() implies #[trigger] views(fields@)[k]
            == csv_fields(line@)[k] by {
            assert(views(raw@)[k] == raw@[k]@);
            assert(fields@[k]@ == trim(raw@[k]@));
        }
    }
    if fields.len() < 4 {
        return None;
    }
    proof {
        assert(views(fields@)[0] == fields@[0]@);
        assert(views(fields@)[1] == fields@[1]@);
        assert(views(fields@)[2] == fields@[2]@);
        assert(views(fields@)[3] == fields@[3]@);
    }
    Some(
        NvidiaRow {
            name: string_of(fields[0].as_slice()),
            usage: string_of(fields[1].as_slice()),
            mem_used_mib: u64_field(fields[2].as_slice()),
            mem_total_mib: u64_field(fields[3].as_slice()),
            temperature: opt_field(&fields, 4),
            fan: opt_field(&fields, 5),
            power: opt_field(&fields, 6),
        },
    )
}

/// Whether an entry of `/sys/class/drm` is a card (`card0`), not one of its
/// connectors (`card0-DP-1`).
pub open spec fn is_drm_card(name: Seq<char>) -> bool {
    has_prefix(name, "card"@) && !name.contains('-')
}

/// Whether an entry of `/sys/class/drm` is a card.
pub fn drm_card(name: &str) -> (r: bool)
    ensures
        r == is_drm_card(name@),
{
    let cs = chars_of(name);
    let card = chars_of("card");
    if !starts_with(cs.as_slice(), card.as_slice()) {
        return false;
    }
    let mut i: usize = 0;
    while i < cs.len()
        invariant
            i <= cs@.len(),
            cs@ == name@,
            forall|k: int| 0 <= k < i ==> cs@[k] != '-',
        decreases cs@.len() - i,
    {
        if cs[i] == '-' {
            assert(cs@[i as int] == '-');
            assert(cs@.contains('-'));
            return false;
        }
        i += 1;
    }
    true
}

/// A VRAM size file of an AMD card (bytes) in MiB: its trimmed contents
/// as a `u64` divided by 2^20, 0 when it could not be read or is no
/// number.
pub open spec fn vram_mib_of(raw: Option<String>) -> nat {
    match raw {
        Some(s) => u64_or_zero(trim(s@)) / 1048576,
        None => 0,
    }
}

/// The MiB that the contents of an AMD VRAM size file give.
pub fn vram_mib(raw: &Option<String>) -> (r: u64)
    ensures
        r == vram_mib_of(*raw),
{
    match raw {
        Some(s) => {
            let cs = chars_of(s.as_str());
            let t = trim_chars(cs.as_slice());
            u64_field(t.as_slice()) / (1024 * 1024)
        },
        None => 0,
    }
}

/// The display name of an AMD card: "AMD GPU (<entry name>)".
pub fn amd_gpu_name(entry: &str) -> (r: String)
    ensures
        r@ == "AMD GPU ("@ + entry@ + ")"@,
{
    let mut out = "AMD GPU (".to_owned();
    crate::text::push_str(&mut out, entry);
    out.push(')');
    proof {
        reveal_strlit(")");
    }
    assert(out@ =~= "AMD GPU ("@ + entry@ + ")"@);
    out
}

} // verus!
