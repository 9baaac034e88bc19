//! Formatting helpers: byte totals, uptimes and truncated labels.

use vstd::prelude::*;
use vstd::string::StringSliceAdditionalSpecFns;
use vstd::utf8::{encode_utf8, is_char_boundary};

use crate::number::{decimal, digit_to_char, push_decimal};
use crate::text::push_str;

verus! {

// ── Rounding ────────────────────────────────────────────────────────────────

/// `num / den` rounded to the nearest integer, ties to the even neighbour.
pub open spec fn round_half_even(num: nat, den: nat) -> nat
    recommends
        den > 0,
{
    let q = num / den;
    let r = num % den;
    if 2 * r > den || (2 * r == den && q % 2 == 1) {
        q + 1
    } else {
        q
    }
}

/// The number of binary digits of `n`.
pub open spec fn bit_length(n: nat) -> nat
    decreases n,
{
    if n == 0 {
        0
    } else {
        1 + bit_length(n / 2)
    }
}

/// `2` to the power `e`.
pub open spec fn pow2(e: nat) -> nat
    decreases e,
{
    if e == 0 {
        1
    } else {
        2 * pow2((e - 1) as nat)
    }
}

/// The integer `n` as an `f64` holds it: exact below 2^53, else rounded to
/// 53 significant bits with ties to even, as the conversion `as f64` does.
pub open spec fn as_f64(n: nat) -> nat {
    if bit_length(n) <= 53 {
        n
    } else {
        let unit = pow2((bit_length(n) - 53) as nat);
        round_half_even(n, unit) * unit
    }
}

/// `num / den` rounded half to even.
fn round_div(num: u128, den: u128) -> (r: u128)
    requires
        den > 0,
        num < u128::MAX,
    ensures
        r == round_half_even(num as nat, den as nat),
{
    let q = num / den;
    let r = num % den;
    if r > den - r || (r == den - r && q % 2 == 1) {
        q + 1
    } else {
        q
    }
}

proof fn lemma_pow2_pos(e: nat)
    ensures
        pow2(e) >= 1,
    decreases e,
{
    if e > 0 {
        lemma_pow2_pos((e - 1) as nat);
    }
}

proof fn lemma_bit_length_bound(n: nat, e: nat)
    requires
        n < pow2(e),
    ensures
        bit_length(n) <= e,
    decreases e,
{
    if e > 0 && n > 0 {
        lemma_bit_length_bound(n / 2, (e - 1) as nat);
    }
}

proof fn lemma_pow2_le(i: nat, j: nat)
    requires
        i <= j,
    ensures
        pow2(i) <= pow2(j),
    decreases j,
{
    if i < j {
        lemma_pow2_le(i, (j - 1) as nat);
    }
}

/// The number of binary digits of `n`.
fn bit_len(n: u64) -> (r: u64)
    ensures
        r == bit_length(n as nat),
        r <= 64,
{
    let mut bits: u64 = 0;
    let mut rest: u64 = n;
    let ghost n0 = n as nat;
    proof {
        assert(pow2(64) == 0x1_0000_0000_0000_0000) by {
            reveal_with_fuel(pow2, 65);
        }
        lemma_bit_length_bound(n0, 64);
    }
    while rest > 0
        invariant
            bits <= 64,
            bit_length(n0) <= 64,
            bit_length(n0) == bits + bit_length(rest as nat),
        decreases rest,
    {
        assert(bit_length(rest as nat) == 1 + bit_length((rest / 2) as nat));
        rest = rest / 2;
        bits = bits + 1;
    }
    bits
}

/// `2^e` for `e <= 11`.
fn small_pow2(e: u64) -> (r: u128)
    requires
        e <= 11,
    ensures
        r == pow2(e as nat),
        1 <= r <= 2048,
{
    let mut unit: u128 = 1;
    let mut i: u64 = 0;
    proof {
        assert(pow2(11) == 2048) by {
            reveal_with_fuel(pow2, 12);
        }
    }
    while i < e
        invariant
            i <= e <= 11,
            unit == pow2(i as nat),
            pow2(11) == 2048,
        decreases e - i,
    {
        assert(pow2((i + 1) as nat) == 2 * pow2(i as nat));
        proof {
            lemma_pow2_le((i + 1) as nat, 11);
        }
        unit = unit * 2;
        i = i + 1;
    }
    proof {
        lemma_pow2_pos(e as nat);
        lemma_pow2_le(e as nat, 11);
    }
    unit
}

/// The value of `n` after conversion to `f64`.
fn f64_value(n: u64) -> (r: u128)
    ensures
        r == as_f64(n as nat),
        r <= n as u128 + 2048,
{
    let bits = bit_len(n);
    if bits <= 53 {
        return n as u128;
    }
    let unit = small_pow2(bits - 53);
    let q = round_div(n as u128, unit);
    assert(q <= (n as u128) / unit + 1);
    assert(q * unit <= (n as u128) + unit) by (nonlinear_arith)
        requires
            q <= (n as u128) / unit + 1,
            unit > 0,
    ;
    q * unit
}

// ── Byte totals ─────────────────────────────────────────────────────────────

/// Two decimal digits of `n < 100`, zero padded.
pub open spec fn two_digits(n: nat) -> Seq<char> {
    seq![crate::number::digit_char(n / 10), crate::number::digit_char(n % 10)]
}

/// `value / 2^30` with two decimals, then the unit.
pub open spec fn gb_text(v: nat) -> Seq<char> {
    let cents = round_half_even(v * 100, 0x4000_0000);
    decimal(cents / 100) + seq!['.'] + two_digits(cents % 100) + " GB"@
}

/// `value / den` with one decimal, then the unit.
pub open spec fn tenths_text(v: nat, den: nat, unit: Seq<char>) -> Seq<char> {
    let tenths = round_half_even(v * 10, den);
    decimal(tenths / 10) + seq!['.', crate::number::digit_char(tenths % 10)] + unit
}

/// A byte count as `format_bytes_total` prints it: gigabytes with two
/// decimals from 2^30 bytes on, megabytes with one decimal from 2^20,
/// kilobytes with one decimal from 1024, else whole bytes. The division is
/// that of the `f64` value of the count, rounded half to even.
pub open spec fn bytes_total_text(bytes: nat) -> Seq<char> {
    if bytes >= 0x4000_0000 {
        gb_text(as_f64(bytes))
    } else if bytes >= 0x10_0000 {
        tenths_text(bytes, 0x10_0000, " MB"@)
    } else if bytes >= 1024 {
        tenths_text(bytes, 1024, " KB"@)
    } else {
        decimal(bytes) + " B"@
    }
}

/// Format a byte count as a total (GB/MB/KB/B).
pub fn format_bytes_total(bytes: u64) -> (s: String)
    ensures
        s@ == bytes_total_text(bytes as nat),
{
    let mut out = String::new();
    if bytes >= 0x4000_0000 {
        let v = f64_value(bytes);
        let cents = round_div(v * 100, 0x4000_0000);
        push_decimal(&mut out, (cents / 100) as u64);
        out.push('.');
        out.push(digit_to_char(((cents % 100) / 10) as u64));
        out.push(digit_to_char((cents % 10) as u64));
        push_str(&mut out, " GB");
    } else if bytes >= 0x10_0000 {
        let tenths = round_div((bytes as u128) * 10, 0x10_0000);
        push_decimal(&mut out, (tenths / 10) as u64);
        out.push('.');
        out.push(digit_to_char((tenths % 10) as u64));
        push_str(&mut out, " MB");
    } else if bytes >= 1024 {
        let tenths = round_div((bytes as u128) * 10, 1024);
        push_decimal(&mut out, (tenths / 10) as u64);
        out.push('.');
        out.push(digit_to_char((tenths % 10) as u64));
        push_str(&mut out, " KB");
    } else {
        push_decimal(&mut out, bytes);
        push_str(&mut out, " B");
    }
    out
}


// ── Uptime ──────────────────────────────────────────────────────────────────

/// An uptime of `secs` seconds as "Xd Xh Xm Xs", leaving out leading
/// zero units: days, hours, minutes and seconds of the duration.
pub open spec fn uptime_text(secs: nat) -> Seq<char> {
    let d = secs / 86400;
    let h = (secs % 86400) / 3600;
    let m = (secs % 3600) / 60;
    let s = secs % 60;
    if d > 0 {
        decimal(d) + "d "@ + decimal(h) + "h "@ + decimal(m) + "m "@ + decimal(s) + "s"@
    } else if h > 0 {
        decimal(h) + "h "@ + decimal(m) + "m "@ + decimal(s) + "s"@
    } else if m > 0 {
        decimal(m) + "m "@ + decimal(s) + "s"@
    } else {
        decimal(s) + "s"@
    }
}

/// Format uptime in seconds to "Xd Xh Xm Xs".
pub fn format_uptime(secs: u64) -> (r: String)
    ensures
        r@ == uptime_text(secs as nat),
{
    let d = secs / 86400;
    let h = (secs % 86400) / 3600;
    let m = (secs % 3600) / 60;
    let s = secs % 60;
    let mut out = String::new();
    if d > 0 {
        push_decimal(&mut out, d);
        push_str(&mut out, "d ");
    }
    if d > 0 || h > 0 {
        push_decimal(&mut out, h);
        push_str(&mut out, "h ");
    }
    if d > 0 || h > 0 || m > 0 {
        push_decimal(&mut out, m);
        push_str(&mut out, "m ");
    }
    push_decimal(&mut out, s);
    push_str(&mut out, "s");
    assert(out@ =~= uptime_text(secs as nat));
    out
}

/// The units of an uptime add back up to the number of seconds, each
/// within its range.
pub proof fn uptime_units_add_up(secs: nat)
    ensures
        (secs / 86400) * 86400 + ((secs % 86400) / 3600) * 3600 + ((secs % 3600) / 60) * 60 + secs
            % 60 == secs,
        (secs % 86400) / 3600 < 24,
        (secs % 3600) / 60 < 60,
        secs % 60 < 60,
{
    let d = secs / 86400;
    let r1 = secs % 86400;
    let h = r1 / 3600;
    let r2 = r1 % 3600;
    assert(secs == d * 86400 + r1);
    assert(r1 == h * 3600 + r2);
    assert(secs % 3600 == r2) by (nonlinear_arith)
        requires
            secs == d * 86400 + h * 3600 + r2,
            r2 < 3600,
    {
        assert(d * 86400 + h * 3600 == (d * 24 + h) * 3600);
    }
    assert((r2 / 60) * 60 + r2 % 60 == r2);
    assert(secs % 60 == r2 % 60) by (nonlinear_arith)
        requires
            secs == d * 86400 + h * 3600 + r2,
    {
        assert(d * 86400 + h * 3600 == (d * 1440 + h * 60) * 60);
    }
}

// ── Truncation ──────────────────────────────────────────────────────────────

/// The byte length at which `truncate_str` cuts a string that is longer
/// than `max_len` bytes: one byte is left for the ellipsis.
pub open spec fn cut_point(max_len: usize) -> int {
    if max_len > 0 {
        max_len - 1
    } else {
        0
    }
}

/// Truncate a string to `max_len` bytes, appending '…' if truncated. A
/// longer string must have a character boundary at the cut.
pub fn truncate_str(s: &str, max_len: usize) -> (r: String)
    requires
        s.spec_bytes().len() > max_len ==> is_char_boundary(s.spec_bytes(), cut_point(max_len)),
    ensures
        s.spec_bytes().len() <= max_len ==> r@ == s@,
        s.spec_bytes().len() > max_len ==> exists|head: Seq<char>|
            r@ == head.push('…') && #[trigger] encode_utf8(head) == s.spec_bytes().subrange(
                0,
                cut_point(max_len),
            ),
{
    if s.as_bytes().len() <= max_len {
        s.to_owned()
    } else {
        let cut = max_len.saturating_sub(1);
        let (head, _) = s.split_at(cut);
        let mut out = head.to_owned();
        out.push('…');
        assert(out@ == head@.push('…') && encode_utf8(head@) == s.spec_bytes().subrange(
            0,
            cut_point(max_len),
        ));
        assert(exists|h: Seq<char>|
            out@ == h.push('…') && #[trigger] encode_utf8(h) == s.spec_bytes().subrange(
                0,
                cut_point(max_len),
            ));
        out
    }
}

} // verus!
