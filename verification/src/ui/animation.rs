//! Decorative animation patterns: a scrolling shade band and matrix-style
//! character columns.

use vstd::prelude::*;

verus! {

/// The glyphs of the scrolling band, a shade ramp up and down.
pub open spec fn shade_glyph(k: int) -> char {
    if k == 0 {
        '░'
    } else if k == 1 {
        '▒'
    } else if k == 2 {
        '▓'
    } else if k == 3 {
        '█'
    } else if k == 4 {
        '▓'
    } else if k == 5 {
        '▒'
    } else {
        '░'
    }
}

/// The number of glyphs in the scrolling band.
pub const SHADE_LEN: usize = 7;

/// The glyphs of a matrix column: ten half-width katakana, then "0" and
/// "1".
pub open spec fn matrix_glyph(k: int) -> char {
    if k == 0 {
        'ｱ'
    } else if k == 1 {
        'ｲ'
    } else if k == 2 {
        'ｳ'
    } else if k == 3 {
        'ｴ'
    } else if k == 4 {
        'ｵ'
    } else if k == 5 {
        'ｶ'
    } else if k == 6 {
        'ｷ'
    } else if k == 7 {
        'ｸ'
    } else if k == 8 {
        'ｹ'
    } else if k == 9 {
        'ｺ'
    } else if k == 10 {
        '0'
    } else {
        '1'
    }
}

/// The number of glyphs a matrix column draws from.
pub const MATRIX_LEN: usize = 12;

fn shade_at(k: usize) -> (c: char)
    requires
        k < SHADE_LEN,
    ensures
        c == shade_glyph(k as int),
{
    if k == 0 {
        '░'
    } else if k == 1 {
        '▒'
    } else if k == 2 {
        '▓'
    } else if k == 3 {
        '█'
    } else if k == 4 {
        '▓'
    } else if k == 5 {
        '▒'
    } else {
        '░'
    }
}

fn matrix_at(k: usize) -> (c: char)
    requires
        k < MATRIX_LEN,
    ensures
        c == matrix_glyph(k as int),
{
    if k == 0 {
        'ｱ'
    } else if k == 1 {
        'ｲ'
    } else if k == 2 {
        'ｳ'
    } else if k == 3 {
        'ｴ'
    } else if k == 4 {
        'ｵ'
    } else if k == 5 {
        'ｶ'
    } else if k == 6 {
        'ｷ'
    } else if k == 7 {
        'ｸ'
    } else if k == 8 {
        'ｹ'
    } else if k == 9 {
        'ｺ'
    } else if k == 10 {
        '0'
    } else {
        '1'
    }
}

/// Generate a scrolling decorative pattern string of the given width: the
/// shade band shifted left by `tick` positions (the tick taken as a
/// `usize`), repeated.
pub fn scrolling_pattern(tick: u64, width: usize) -> (r: String)
    ensures
        r@.len() == width,
        forall|i: int|
            0 <= i < width ==> #[trigger] r@[i] == shade_glyph((i + (tick as usize) % 7) % 7),
{
    let offset = (tick as usize) % SHADE_LEN;
    let mut out = String::new();
    let mut i: usize = 0;
    while i < width
        invariant
            i <= width,
            offset == (tick as usize) % 7,
            out@.len() == i,
            forall|j: int|
                0 <= j < i ==> #[trigger] out@[j] == shade_glyph((j + (tick as usize) % 7) % 7),
        decreases width - i,
    {
        let k = (i % SHADE_LEN + offset) % SHADE_LEN;
        assert(k == (i + (tick as usize) % 7) % 7) by {
            vstd::arithmetic::div_mod::lemma_add_mod_noop(i as int, offset as int, 7);
            vstd::arithmetic::div_mod::lemma_small_mod(offset as nat, 7);
        }
        let ghost before = out@;
        out.push(shade_at(k));
        assert(forall|j: int| 0 <= j < i ==> out@[j] == before[j]);
        i += 1;
    }
    out
}

/// The band scrolls one cell to the left per tick and repeats every seven
/// ticks: a cell shows at `tick + 1` what its right neighbour showed at
/// `tick`, and at `tick + 7` what it showed at `tick`.
pub proof fn pattern_scrolls(tick: nat, i: nat)
    ensures
        shade_glyph(((i + (tick + 1) % 7) % 7) as int) == shade_glyph(((i + 1 + tick % 7) % 7) as int),
        shade_glyph(((i + (tick + 7) % 7) % 7) as int) == shade_glyph(((i + tick % 7) % 7) as int),
{
    assert((i + (tick + 1) % 7) % 7 == (i + 1 + tick % 7) % 7) by {
        vstd::arithmetic::div_mod::lemma_add_mod_noop(i as int, (tick + 1) as int, 7);
        vstd::arithmetic::div_mod::lemma_add_mod_noop((i + 1) as int, tick as int, 7);
        vstd::arithmetic::div_mod::lemma_mod_twice((tick + 1) as int, 7);
        vstd::arithmetic::div_mod::lemma_mod_twice(tick as int, 7);
    }
    assert((tick + 7) % 7 == tick % 7) by {
        vstd::arithmetic::div_mod::lemma_mod_add_multiples_vanish(tick as int, 7);
    }
}

/// The seed of one cell of a matrix column: `tick * 7 + col * 13 + row * 31`,
/// wrapped to the width of `usize` (the tick taken as a `usize`).
pub open spec fn matrix_seed(tick: u64, col: usize, row: int) -> int {
    ((tick as usize) as int * 7 + col * 13 + row * 31) % (usize::MAX as int + 1)
}

proof fn lemma_wrapping_add_mod(a: usize, b: usize)
    ensures
        vstd::wrapping::usize_specs::wrapping_add(a, b) as int == (a as int + b as int) % (
        usize::MAX as int + 1),
{
    let m = usize::MAX as int + 1;
    if a + b > usize::MAX {
        vstd::arithmetic::div_mod::lemma_fundamental_div_mod_converse(
            a as int + b as int,
            m,
            1,
            a as int + b as int - m,
        );
    } else {
        vstd::arithmetic::div_mod::lemma_small_mod((a as int + b as int) as nat, m as nat);
    }
}

/// Generate a matrix-style column of `height` characters; the character
/// of each row is picked by its seed.
pub fn matrix_column(height: usize, tick: u64, col: usize) -> (r: Vec<char>)
    requires
        col * 13 <= usize::MAX,
        height * 31 <= usize::MAX + 31,
    ensures
        r@.len() == height,
        forall|row: int|
            0 <= row < height ==> #[trigger] r@[row] == matrix_glyph(matrix_seed(tick, col, row) % 12),
{
    let m: Ghost<int> = Ghost(usize::MAX as int + 1);
    let mut out: Vec<char> = Vec::new();
    let mut row: usize = 0;
    let t = tick as usize;
    let base = t.wrapping_mul(7).wrapping_add(col * 13);
    proof {
        assert(t.wrapping_mul(7) as int == (t as int * 7) % m@);
        lemma_wrapping_add_mod(t.wrapping_mul(7), (col * 13) as usize);
        vstd::arithmetic::div_mod::lemma_add_mod_noop(t as int * 7, col as int * 13, m@);
        vstd::arithmetic::div_mod::lemma_mod_twice(col as int * 13, m@);
        vstd::arithmetic::div_mod::lemma_small_mod((col * 13) as nat, m@ as nat);
        assert(base as int == (t as int * 7 + col * 13) % m@);
    }
    while row < height
        invariant
            row <= height,
            height * 31 <= usize::MAX + 31,
            m@ == usize::MAX as int + 1,
            t == tick as usize,
            base as int == (t as int * 7 + col * 13) % m@,
            out@.len() == row,
            forall|j: int|
                0 <= j < row ==> #[trigger] out@[j] == matrix_glyph(matrix_seed(tick, col, j) % 12),
        decreases height - row,
    {
        let seed = base.wrapping_add(row * 31);
        proof {
            lemma_wrapping_add_mod(base, (row * 31) as usize);
            vstd::arithmetic::div_mod::lemma_add_mod_noop(t as int * 7 + col * 13, row as int * 31, m@);
            vstd::arithmetic::div_mod::lemma_small_mod((row * 31) as nat, m@ as nat);
            vstd::arithmetic::div_mod::lemma_mod_twice(t as int * 7 + col * 13, m@);
            assert(seed as int == matrix_seed(tick, col, row as int));
        }
        let ghost before = out@;
        out.push(matrix_at(seed % MATRIX_LEN));
        assert(forall|j: int| 0 <= j < row ==> out@[j] == before[j]);
        row += 1;
    }
    out
}

// ── Matrix rain ─────────────────────────────────────────────────────────────

/// The speed at which the drop of column `col` falls: 1 to 4 rows per three
/// ticks.
pub open spec fn drop_speed(col: u16) -> int {
    1 + (col * 7 + 3) % 4
}

/// The row of the head of the drop of column `col` at `tick`, on a screen of
/// `height` rows: `tick * speed / 3` (the product wrapped to the width of
/// `usize`), modulo twice the height.
pub open spec fn drop_head(tick: u64, col: u16, height: u16) -> int {
    (((tick as usize) as int * drop_speed(col)) % (usize::MAX as int + 1)) / 3 % (2 * height)
}

/// The green level of the rain in a cell: brightest at the head of the
/// drop, fading over the trail above it; no rain below the head or more
/// than a screen's height above it.
pub open spec fn rain_level(tick: u64, col: u16, row: u16, height: u16) -> Option<u8> {
    let head = drop_head(tick, col, height);
    if head < row {
        None
    } else {
        let dist = head - row;
        if dist > height {
            None
        } else if dist == 0 {
            Some(200u8)
        } else if dist < 6 {
            Some((100 - dist * 14) as u8)
        } else if dist * 3 >= 46 {
            Some(4u8)
        } else {
            Some((50 - dist * 3) as u8)
        }
    }
}

/// The rain in the cell at column `col` and row `row` of a screen of
/// `height` rows at `tick`: its green level, or `None` where there is no
/// rain.
pub fn rain_cell(tick: u64, col: u16, row: u16, height: u16) -> (r: Option<u8>)
    requires
        0 < height,
    ensures
        r == rain_level(tick, col, row, height),
{
    let c = col as usize;
    let speed: usize = 1 + (c * 7 + 3) % 4;
    let product = (tick as usize).wrapping_mul(speed);
    let span: usize = (height as usize) * 2;
    let head = product / 3 % span;
    proof {
        assert(product as int == ((tick as usize) as int * drop_speed(col)) % (usize::MAX as int + 1));
    }
    let r = row as usize;
    if head < r {
        return None;
    }
    let dist = head - r;
    if dist > height as usize {
        None
    } else if dist == 0 {
        Some(200u8)
    } else if dist < 6 {
        Some(100u8 - (dist as u8) * 14)
    } else if dist * 3 >= 46 {
        Some(4u8)
    } else {
        Some((50 - dist * 3) as u8)
    }
}

} // verus!
