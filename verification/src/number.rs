//! Integers from and to text: parsing in a radix as `from_str_radix` and
//! `str::parse` do it, and decimal and hexadecimal rendering.

use vstd::prelude::*;

verus! {

// ── Parsing ─────────────────────────────────────────────────────────────────

/// The value of `c` as a digit in `radix`, as `char::to_digit` gives it.
pub open spec fn digit_value(c: char, radix: nat) -> Option<nat> {
    let d: int = if '0' <= c && c <= '9' {
        c as int - '0' as int
    } else if 'a' <= c && c <= 'z' {
        c as int - 'a' as int + 10
    } else if 'A' <= c && c <= 'Z' {
        c as int - 'A' as int + 10
    } else {
        -1
    };
    if 0 <= d && d < radix {
        Some(d as nat)
    } else {
        None
    }
}

/// Every character of `s` is a digit in `radix`.
pub open spec fn all_digits(s: Seq<char>, radix: nat) -> bool {
    forall|i: int| 0 <= i < s.len() ==> #[trigger] digit_value(s[i], radix) is Some
}

/// The number that the digits `s` denote in `radix`, most significant first.
pub open spec fn digits_value(s: Seq<char>, radix: nat) -> nat
    decreases s.len(),
{
    if s.len() == 0 {
        0
    } else {
        digits_value(s.drop_last(), radix) * radix + digit_value(s.last(), radix).unwrap()
    }
}

/// What an unsigned integer type with largest value `max` parses from `s`
/// in `radix` (`from_str_radix`, or `str::parse` for radix 10): an optional
/// `+`, then at least one digit, and a value that fits.
pub open spec fn parse_unsigned(s: Seq<char>, radix: nat, max: nat) -> Option<nat> {
    let ds = if s.len() > 0 && s[0] == '+' {
        s.drop_first()
    } else {
        s
    };
    if ds.len() > 0 && all_digits(ds, radix) && digits_value(ds, radix) <= max {
        Some(digits_value(ds, radix))
    } else {
        None
    }
}

/// What `str::parse::<i32>` gives for `s`: an optional sign, then at least
/// one decimal digit, and a value in the range of `i32`.
pub open spec fn parse_i32_spec(s: Seq<char>) -> Option<int> {
    if s.len() > 0 && s[0] == '-' {
        let ds = s.drop_first();
        if ds.len() > 0 && all_digits(ds, 10) && digits_value(ds, 10) <= 0x8000_0000 {
            Some(-(digits_value(ds, 10) as int))
        } else {
            None
        }
    } else {
        match parse_unsigned(s, 10, 0x7fff_ffff) {
            Some(v) => Some(v as int),
            None => None,
        }
    }
}

/// The value of `c` as a digit in `radix`.
pub fn to_digit(c: char, radix: u32) -> (r: Option<u32>)
    requires
        2 <= radix <= 36,
    ensures
        match r {
            Some(d) => digit_value(c, radix as nat) == Some(d as nat),
            None => digit_value(c, radix as nat) is None,
        },
{
    let v = c as u32;
    let d: u32 = if '0' <= c && c <= '9' {
        v - ('0' as u32)
    } else if 'a' <= c && c <= 'z' {
        v - ('a' as u32) + 10
    } else if 'A' <= c && c <= 'Z' {
        v - ('A' as u32) + 10
    } else {
        return None;
    };
    if d < radix {
        Some(d)
    } else {
        None
    }
}

proof fn lemma_value_grows(v: nat, radix: nat, d: nat)
    requires
        radix >= 1,
    ensures
        v * radix + d >= v,
{
    assert(v * radix >= v) by (nonlinear_arith)
        requires
            radix >= 1,
    ;
}

/// Parses the digits `ds` (no sign) in `radix`, up to the largest value `max`.
fn parse_digits(ds: &[char], radix: u32, max: u64) -> (r: Option<u64>)
    requires
        2 <= radix <= 36,
    ensures
        match r {
            Some(v) => ds@.len() > 0 && all_digits(ds@, radix as nat) && digits_value(
                ds@,
                radix as nat,
            ) == v && v <= max,
            None => !(ds@.len() > 0 && all_digits(ds@, radix as nat) && digits_value(
                ds@,
                radix as nat,
            ) <= max),
        },
{
    if ds.len() == 0 {
        return None;
    }
    let mut acc: u128 = 0;
    let mut over = false;
    let mut i: usize = 0;
    while i < ds.len()
        invariant
            2 <= radix <= 36,
            i <= ds.len(),
            all_digits(ds@.take(i as int), radix as nat),
            !over ==> acc == digits_value(ds@.take(i as int), radix as nat) && acc <= max,
            over ==> digits_value(ds@.take(i as int), radix as nat) > max,
        decreases ds.len() - i,
    {
        let ghost prefix = ds@.take(i as int);
        assert(ds@.take(i as int + 1).drop_last() =~= prefix);
        match to_digit(ds[i], radix) {
            None => {
                return None;
            },
            Some(d) => {
                proof {
                    lemma_value_grows(digits_value(prefix, radix as nat), radix as nat, d as nat);
                }
                if !over {
                    assert(acc * (radix as u128) <= (max as u128) * 36) by (nonlinear_arith)
                        requires
                            acc <= max,
                            radix <= 36,
                    ;
                    let next: u128 = acc * (radix as u128) + (d as u128);
                    if next > max as u128 {
                        over = true;
                    } else {
                        acc = next;
                    }
                }
            },
        }
        i += 1;
    }
    assert(ds@.take(ds.len() as int) =~= ds@);
    if over {
        None
    } else {
        Some(acc as u64)
    }
}

/// Parses an unsigned number in `radix` whose value may not exceed `max`,
/// as `from_str_radix` does for the unsigned type with that largest value.
pub fn parse_unsigned_radix(s: &[char], radix: u32, max: u64) -> (r: Option<u64>)
    requires
        2 <= radix <= 36,
    ensures
        match r {
            Some(v) => parse_unsigned(s@, radix as nat, max as nat) == Some(v as nat),
            None => parse_unsigned(s@, radix as nat, max as nat) is None,
        },
{
    if s.len() > 0 && s[0] == '+' {
        let rest = s.split_at(1).1;
        assert(rest@ =~= s@.drop_first());
        parse_digits(rest, radix, max)
    } else {
        parse_digits(s, radix, max)
    }
}

/// `str::parse::<u32>`.
pub fn parse_u32(s: &[char]) -> (r: Option<u32>)
    ensures
        match r {
            Some(v) => parse_unsigned(s@, 10, u32::MAX as nat) == Some(v as nat),
            None => parse_unsigned(s@, 10, u32::MAX as nat) is None,
        },
{
    match parse_unsigned_radix(s, 10, u32::MAX as u64) {
        Some(v) => Some(v as u32),
        None => None,
    }
}

/// `str::parse::<u64>`.
pub fn parse_u64(s: &[char]) -> (r: Option<u64>)
    ensures
        match r {
            Some(v) => parse_unsigned(s@, 10, u64::MAX as nat) == Some(v as nat),
            None => parse_unsigned(s@, 10, u64::MAX as nat) is None,
        },
{
    parse_unsigned_radix(s, 10, u64::MAX)
}

/// `str::parse::<i32>`.
pub fn parse_i32(s: &[char]) -> (r: Option<i32>)
    ensures
        match r {
            Some(v) => parse_i32_spec(s@) == Some(v as int),
            None => parse_i32_spec(s@) is None,
        },
{
    if s.len() > 0 && s[0] == '-' {
        let rest = s.split_at(1).1;
        assert(rest@ =~= s@.drop_first());
        match parse_digits(rest, 10, 0x8000_0000) {
            Some(v) => Some((0 - (v as i64)) as i32),
            None => None,
        }
    } else {
        match parse_unsigned_radix(s, 10, 0x7fff_ffff) {
            Some(v) => Some(v as i32),
            None => None,
        }
    }
}

// ── Rendering ───────────────────────────────────────────────────────────────

/// The decimal digit character for `d < 10`.
pub open spec fn digit_char(d: nat) -> char {
    ('0' as int + d) as char
}

/// The uppercase hexadecimal digit character for `d < 16`.
pub open spec fn hex_char(d: nat) -> char {
    if d < 10 {
        digit_char(d)
    } else {
        ('A' as int + d - 10) as char
    }
}

/// The decimal representation of `n`, without leading zeros, as `{}`
/// formats an unsigned integer.
pub open spec fn decimal(n: nat) -> Seq<char>
    decreases n,
{
    if n < 10 {
        seq![digit_char(n)]
    } else {
        decimal(n / 10).push(digit_char(n % 10))
    }
}

/// The two uppercase hexadecimal digits of a byte, as `{:02X}` formats it.
pub open spec fn hex2(n: nat) -> Seq<char> {
    seq![hex_char(n / 16), hex_char(n % 16)]
}

/// The character of decimal digit `d`.
pub fn digit_to_char(d: u64) -> (c: char)
    requires
        d < 10,
    ensures
        c == digit_char(d as nat),
{
    let b: u8 = 48u8 + (d as u8);
    b as char
}

/// The character of uppercase hexadecimal digit `d`.
pub fn hex_digit_to_char(d: u8) -> (c: char)
    requires
        d < 16,
    ensures
        c == hex_char(d as nat),
{
    if d < 10 {
        (48u8 + d) as char
    } else {
        (55u8 + d) as char
    }
}

/// Appends the decimal representation of `n` to `out`.
pub fn push_decimal(out: &mut String, n: u64)
    ensures
        final(out)@ == old(out)@ + decimal(n as nat),
    decreases n,
{
    if n >= 10 {
        push_decimal(out, n / 10);
    }
    out.push(digit_to_char(n % 10));
    assert(final(out)@ =~= old(out)@ + decimal(n as nat));
}

/// Every decimal representation reads back as the number it represents:
/// it is a run of digits whose value is the number, with no sign, so
/// `str::parse` gives the number for any type that can hold it.
pub proof fn decimal_reads_back(n: nat, max: nat)
    requires
        n <= max,
    ensures
        parse_unsigned(decimal(n), 10, max) == Some(n),
    decreases n,
{
    lemma_decimal_digits(n);
}

proof fn lemma_decimal_digits(n: nat)
    ensures
        decimal(n).len() > 0,
        all_digits(decimal(n), 10),
        digits_value(decimal(n), 10) == n,
        decimal(n)[0] != '+',
    decreases n,
{
    if n < 10 {
        assert(digit_value(digit_char(n), 10) == Some(n));
        assert(decimal(n).drop_last() =~= Seq::<char>::empty());
        assert(digits_value(decimal(n).drop_last(), 10) == 0);
        assert(decimal(n).last() == digit_char(n));
    } else {
        lemma_decimal_digits(n / 10);
        let d = decimal(n);
        let p = decimal(n / 10);
        assert(d == p.push(digit_char(n % 10)));
        assert(digit_value(digit_char(n % 10), 10) == Some(n % 10));
        assert(d.drop_last() =~= p);
        vstd::arithmetic::div_mod::lemma_fundamental_div_mod(n as int, 10);
        assert(digits_value(d, 10) == digits_value(p, 10) * 10 + n % 10);
        assert(digits_value(p, 10) == n / 10);
        assert forall|i: int| 0 <= i < d.len() implies #[trigger] digit_value(d[i], 10) is Some by {
            if i < p.len() {
                assert(d[i] == p[i]);
            }
        }
        assert(d[0] == p[0]);
    }
}

/// The decimal representation of `n`.
pub fn decimal_string(n: u64) -> (s: String)
    ensures
        s@ == decimal(n as nat),
{
    let mut s = String::new();
    push_decimal(&mut s, n);
    assert(s@ =~= decimal(n as nat));
    s
}

} // verus!

verus! {

/// The decimal representation of a signed number, with a leading `-` when
/// negative, as `{}` formats it.
pub open spec fn signed_decimal(n: int) -> Seq<char> {
    if n < 0 {
        seq!['-'] + decimal((-n) as nat)
    } else {
        decimal(n as nat)
    }
}

/// Appends the decimal representation of the signed number `n` to `out`.
pub fn push_signed_decimal(out: &mut String, n: i32)
    ensures
        final(out)@ == old(out)@ + signed_decimal(n as int),
{
    if n < 0 {
        out.push('-');
        let m: u64 = (0 - (n as i64)) as u64;
        push_decimal(out, m);
        assert(final(out)@ =~= old(out)@ + signed_decimal(n as int));
    } else {
        push_decimal(out, n as u64);
    }
}

} // verus!
