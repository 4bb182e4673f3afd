//! An SSD1306 OLED, shown for a few seconds when somebody presses the button.
//!
//! The module's supply is switched rather than the controller put to sleep: a 0.96-inch module in
//! sleep draws about 26 µA, more than this entire meter does while running. Shown for
//! [`DISPLAY_SHOW_SECONDS`](crate::config::DISPLAY_SHOW_SECONDS) four times a day it averages about
//! 1.3 µA.
//!
//! Powering it, the button and the I2C transfers are driven from outside. What is worked out here
//! is what goes over the bus: the initialisation sequence, where to draw, the glyphs, and the
//! reading as the dial of a water meter shows it.

use vstd::prelude::*;
use crate::calibration::{decimal_text, digits_value, is_digit};
use crate::legal::totals::Totals;

verus! {

/// The module's I2C address. `0x3D` on boards that strap SA0 high.
pub const ADDRESS: u8 = 0x3c;
/// Control byte marking the rest of the transfer as commands.
pub const COMMANDS: u8 = 0x00;
/// Control byte marking the rest of the transfer as display data.
pub const DATA: u8 = 0x40;

/// Initialisation, straight from the datasheet's sequence for a 128×64 panel. `0x8D, 0x14` enables
/// the internal charge pump, which is what lets the panel run from a single 3.3 V rail.
pub const INIT: [u8; 24] = [
    0xae, 0xd5, 0x80, 0xa8, 0x3f, 0xd3, 0x00, 0x40, 0x8d, 0x14, 0x20, 0x00, 0xa1, 0xc8, 0xda, 0x12,
    0x81, 0x7f, 0xd9, 0xf1, 0xdb, 0x40, 0xa4, 0xa6,
];

/// The command that lights the panel, sent only after it has been cleared.
pub const DISPLAY_ON: u8 = 0xaf;

/// A 5×8 font, in the order [`glyph`] numbers it: the ten digits, space, `.`, `L`, `E`, `r`, `o`,
/// `m`, `:`. Only the characters this instrument shows.
pub const FONT: [[u8; 5]; 18] = [
    [0x3e, 0x51, 0x49, 0x45, 0x3e],
    [0x00, 0x42, 0x7f, 0x40, 0x00],
    [0x42, 0x61, 0x51, 0x49, 0x46],
    [0x21, 0x41, 0x45, 0x4b, 0x31],
    [0x18, 0x14, 0x12, 0x7f, 0x10],
    [0x27, 0x45, 0x45, 0x45, 0x39],
    [0x3c, 0x4a, 0x49, 0x49, 0x30],
    [0x01, 0x71, 0x09, 0x05, 0x03],
    [0x36, 0x49, 0x49, 0x49, 0x36],
    [0x06, 0x49, 0x49, 0x29, 0x1e],
    [0x00, 0x00, 0x00, 0x00, 0x00],
    [0x00, 0x60, 0x60, 0x00, 0x00],
    [0x7f, 0x40, 0x40, 0x40, 0x40],
    [0x7f, 0x49, 0x49, 0x49, 0x41],
    [0x7c, 0x08, 0x04, 0x04, 0x08],
    [0x38, 0x44, 0x44, 0x44, 0x38],
    [0x7c, 0x04, 0x18, 0x04, 0x78],
    [0x00, 0x36, 0x36, 0x00, 0x00],
];

/// Where a character's glyph is in [`FONT`]; a space for anything not in it.
pub open spec fn glyph_index(c: u8) -> int {
    if 0x30 <= c <= 0x39 {
        c - 0x30
    } else if c == 0x2e {
        11
    } else if c == 0x4c {
        12
    } else if c == 0x45 {
        13
    } else if c == 0x72 {
        14
    } else if c == 0x6f {
        15
    } else if c == 0x6d {
        16
    } else if c == 0x3a {
        17
    } else {
        10
    }
}

/// Index into [`FONT`], or a space for anything not in it.
pub fn glyph(c: u8) -> (r: usize)
    ensures
        r == glyph_index(c),
        r < 18,
{
    if 0x30 <= c && c <= 0x39 {
        (c - 0x30) as usize
    } else if c == 0x2e {
        11
    } else if c == 0x4c {
        12
    } else if c == 0x45 {
        13
    } else if c == 0x72 {
        14
    } else if c == 0x6f {
        15
    } else if c == 0x6d {
        16
    } else if c == 0x3a {
        17
    } else {
        10
    }
}

/// The transfer that draws one character: the data byte, the five columns of its glyph, and a
/// blank column of spacing.
pub fn glyph_transfer(c: u8) -> (r: [u8; 7])
    ensures
        r@ == seq![DATA] + FONT@[glyph_index(c)]@ + seq![0x00u8],
{
    let g: [u8; 5] = FONT[glyph(c)];
    let r: [u8; 7] = [DATA, g[0], g[1], g[2], g[3], g[4], 0x00];
    assert(r@ =~= seq![DATA] + FONT@[glyph_index(c)]@ + seq![0x00u8]);
    r
}

/// The transfer that points the controller at a page and a column.
pub fn seek_transfer(page: u8, column: u8) -> (r: [u8; 4])
    ensures
        r@ == seq![COMMANDS, 0xb0u8 | (page & 0x07u8), column & 0x0fu8, 0x10u8 | (column >> 4u8)],
{
    let r: [u8; 4] = [COMMANDS, 0xb0 | (page & 0x07), column & 0x0f, 0x10 | (column >> 4u8)];
    assert(r@ =~= seq![COMMANDS, 0xb0u8 | (page & 0x07u8), column & 0x0fu8, 0x10u8 | (column >> 4u8)]);
    r
}

/// The transfer that initialises the panel: the command byte and [`INIT`].
pub fn init_transfer() -> (r: [u8; 25])
    ensures
        r@ == seq![COMMANDS] + INIT@,
{
    let mut r: [u8; 25] = [0u8; 25];
    r[0] = COMMANDS;
    let mut i: usize = 0;
    while i < 24
        invariant
            i <= 24,
            r@[0] == COMMANDS,
            forall|j: int| 0 <= j < i ==> r@[j + 1] == INIT@[j],
        decreases 24 - i,
    {
        r[i + 1] = INIT[i];
        i = i + 1;
    }
    assert(r@ =~= seq![COMMANDS] + INIT@);
    r
}

/// A transfer that blanks a quarter of a page: the data byte and thirty-two zero columns. Four of
/// them after each [`seek_transfer`] to column zero, for each of the eight pages, clear the panel.
pub fn blank_transfer() -> (r: [u8; 33])
    ensures
        r@ == seq![DATA] + Seq::new(32, |i: int| 0u8),
{
    let mut chunk: [u8; 33] = [0u8; 33];
    chunk[0] = DATA;
    assert(chunk@ =~= seq![DATA] + Seq::new(32, |i: int| 0u8));
    chunk
}

/// The digit for `d`, which is under ten.
pub open spec fn digit(d: int) -> u8 {
    (0x30 + d) as u8
}

/// The reading the way a water meter's dial shows it: cubic metres with three decimals, which is
/// what a domestic meter is read in. The whole part is thousands of litres — its last five digits,
/// without leading zeroes — and the decimals the litres under that, so 1234 litres shows as
/// `1.234 m3`.
pub open spec fn reading_text(litres: u32) -> Seq<u8> {
    let whole: int = (litres / 1000) as int % 100_000;
    let part: int = litres as int % 1000;
    decimal_text(whole as nat) + seq![
        0x2eu8,
        digit(part / 100),
        digit((part / 10) % 10),
        digit(part % 10),
        0x20u8,
        0x6du8,
        0x33u8,
    ]
}

/// Digits read the same with anything after them.
proof fn lemma_digits_value_prefix(a: Seq<u8>, b: Seq<u8>, start: int, end: int)
    requires
        0 <= start,
        end <= a.len(),
    ensures
        digits_value(a + b, start, end) == digits_value(a, start, end),
    decreases end - start,
{
    if end > start {
        lemma_digits_value_prefix(a, b, start, end - 1);
        assert((a + b)[end - 1] == a[end - 1]);
    }
}

/// The decimal text of `n` is digits, with no leading zero, and reads back as `n`.
proof fn lemma_decimal_text_reads_back(n: nat)
    ensures
        decimal_text(n).len() >= 1,
        forall|j: int| 0 <= j < decimal_text(n).len() ==> is_digit(#[trigger] decimal_text(n)[j]),
        n >= 10 ==> decimal_text(n)[0] != 0x30,
        n < 10 ==> decimal_text(n).len() == 1,
        digits_value(decimal_text(n), 0, decimal_text(n).len() as int) == n,
    decreases n,
{
    let s = decimal_text(n);
    if n < 10 {
        assert(digits_value(s, 0, 0) == 0);
    } else {
        let a = decimal_text(n / 10);
        let c = seq![(0x30 + n % 10) as u8];
        lemma_decimal_text_reads_back(n / 10);
        assert(s == a + c);
        lemma_digits_value_prefix(a, c, 0, a.len() as int);
        assert(s[s.len() - 1] == (0x30 + n % 10) as u8);
        assert forall|j: int| 0 <= j < s.len() implies is_digit(#[trigger] s[j]) by {
            if j < a.len() {
                assert(s[j] == a[j]);
            }
        }
        assert(s[0] == a[0]);
        if n / 10 < 10 {
            assert(a[0] != 0x30);
        }
    }
}

/// What the dial shows reads back as the reading: before the point, the whole cubic metres — the
/// last five digits of the thousands of litres — as decimal digits with no leading zero; then a
/// point, the litres under a thousand as exactly three digits, and the unit, ` m3`.
pub proof fn lemma_reading_reads_back(litres: u32)
    ensures
        ({
            let t = reading_text(litres);
            let k = t.len() - 7;
            &&& 1 <= k <= 5
            &&& forall|j: int| 0 <= j < k ==> is_digit(#[trigger] t[j])
            &&& k > 1 ==> t[0] != 0x30
            &&& digits_value(t, 0, k) == (litres / 1000) % 100_000
            &&& t[k] == 0x2e
            &&& forall|j: int| k + 1 <= j < k + 4 ==> is_digit(#[trigger] t[j])
            &&& digits_value(t, k + 1, k + 4) == litres % 1000
            &&& t.subrange(k + 4, k + 7) == seq![0x20u8, 0x6du8, 0x33u8]
        }),
{
    let whole: int = (litres / 1000) as int % 100_000;
    let part: int = litres as int % 1000;
    let a = decimal_text(whole as nat);
    let tail = seq![
        0x2eu8,
        digit(part / 100),
        digit((part / 10) % 10),
        digit(part % 10),
        0x20u8,
        0x6du8,
        0x33u8,
    ];
    let t = reading_text(litres);
    assert(t == a + tail);
    lemma_decimal_text_reads_back(whole as nat);
    reveal_with_fuel(crate::calibration::pow10, 6);
    lemma_decimal_text_short(whole as nat, 5);
    let k = a.len() as int;
    assert(t.len() - 7 == k);
    lemma_digits_value_prefix(a, tail, 0, k);
    assert forall|j: int| 0 <= j < k implies is_digit(#[trigger] t[j]) by {
        assert(t[j] == a[j]);
    }
    assert(t[0] == a[0]);
    if k > 1 {
        assert(whole >= 10);
    }
    assert(t[k + 1] == digit(part / 100));
    assert(t[k + 2] == digit((part / 10) % 10));
    assert(t[k + 3] == digit(part % 10));
    reveal_with_fuel(digits_value, 4);
    assert(digits_value(t, k + 1, k + 1) == 0);
    assert(digits_value(t, k + 1, k + 2) == part / 100);
    assert(digits_value(t, k + 1, k + 3) == 10 * (part / 100) + (part / 10) % 10);
    assert(digits_value(t, k + 1, k + 4) == 100 * (part / 100) + 10 * ((part / 10) % 10) + part % 10);
    assert(t.subrange(k + 4, k + 7) =~= seq![0x20u8, 0x6du8, 0x33u8]);
}

proof fn lemma_decimal_text_short(n: nat, k: nat)
    requires
        1 <= k,
        n < crate::calibration::pow10(k),
    ensures
        1 <= decimal_text(n).len() <= k,
    decreases n,
{
    if n >= 10 {
        reveal_with_fuel(crate::calibration::pow10, 2);
        assert(k >= 2);
        lemma_decimal_text_short(n / 10, (k - 1) as nat);
    }
}

/// The digit of `c` at place `d` is the same whether or not `c` is first cut to `10·d·k`.
proof fn lemma_digit_survives_mod(c: int, d: int, k: int)
    requires
        c >= 0,
        d > 0,
        k > 0,
    ensures
        ((c % (d * (10 * k))) / d) % 10 == (c / d) % 10,
{
    vstd::arithmetic::div_mod::lemma_mod_breakdown(c, d, 10 * k);
    let q = (c / d) % (10 * k);
    let r = c % d;
    assert(r < d) by {
        vstd::arithmetic::div_mod::lemma_mod_pos_bound(c, d);
    }
    assert(c % (d * (10 * k)) == q * d + r) by {
        vstd::arithmetic::mul::lemma_mul_is_commutative(d, q);
    }
    vstd::arithmetic::div_mod::lemma_fundamental_div_mod_converse(c % (d * (10 * k)), d, q, r);
    vstd::arithmetic::div_mod::lemma_mod_mod(c / d, 10, k);
}

/// `v / d` split into what is above the next place and the digit at it.
proof fn lemma_next_place(v: int, d: int)
    requires
        v >= 0,
        d > 0,
    ensures
        v / d == 10 * (v / (10 * d)) + (v / d) % 10,
        (v / d) / 10 == v / (10 * d),
{
    vstd::arithmetic::div_mod::lemma_div_denominator(v, d, 10);
    vstd::arithmetic::div_mod::lemma_fundamental_div_mod(v / d, 10);
    vstd::arithmetic::mul::lemma_mul_is_commutative(d, 10);
}

fn push(out: &mut [u8; 16], i: &mut usize, v: u8)
    ensures
        *old(i) < 16 ==> *final(i) == *old(i) + 1 && final(out)@ == old(out)@.update(*old(i) as int, v),
        *old(i) >= 16 ==> *final(i) == *old(i) && final(out)@ == old(out)@,
{
    if *i < 16 {
        out[*i] = v;
        *i = *i + 1;
    }
}

/// Write the reading into `out` the way a water meter's dial shows it, and return its length. The
/// rest of `out` is left as it was.
pub fn format_reading(totals: &Totals, out: &mut [u8; 16]) -> (n: usize)
    ensures
        n == reading_text(totals.litres).len(),
        n <= 12,
        final(out)@.subrange(0, n as int) == reading_text(totals.litres),
        final(out)@.subrange(n as int, 16) == old(out)@.subrange(n as int, 16),
{
    let mut i: usize = 0;
    let cubic_metres: u32 = totals.litres / 1000;
    let litres: u32 = totals.litres % 1000;
    let ghost v: int = (cubic_metres % 100_000) as int;

    // Whole cubic metres, most significant digit first, without leading zeroes.
    let mut divisor: u32 = 10_000;
    let mut started: bool = false;
    while divisor > 0
        invariant
            divisor == 10_000 || divisor == 1000 || divisor == 100 || divisor == 10 || divisor == 1
                || divisor == 0,
            0 <= v < 100_000,
            v == (cubic_metres % 100_000) as int,
            i <= 5,
            divisor > 0 ==> started == (v / (10 * divisor) > 0),
            divisor > 0 && started ==> out@.subrange(0, i as int) == decimal_text(
                (v / (10 * divisor)) as nat,
            ),
            divisor > 0 && !started ==> i == 0,
            divisor == 0 ==> out@.subrange(0, i as int) == decimal_text(v as nat),
            out@.subrange(i as int, 16) == old(out)@.subrange(i as int, 16),
        decreases divisor,
    {
        let d: u32 = (cubic_metres / divisor) % 10;
        let ghost prefix = out@.subrange(0, i as int);
        let ghost w: int = v / (divisor as int);
        proof {
            lemma_digit_survives_mod(cubic_metres as int, divisor as int, 10_000int / (divisor as int));
            assert(divisor * (10 * (10_000int / (divisor as int))) == 100_000);
            lemma_next_place(v, divisor as int);
            assert(w < 100_000) by {
                vstd::arithmetic::div_mod::lemma_div_is_ordered_by_denominator(v, 1, divisor as int);
            }
            reveal_with_fuel(crate::calibration::pow10, 6);
            lemma_decimal_text_short(w as nat, 5);
            assert(d == w % 10);
        }
        if d != 0 || started || divisor == 1 {
            let ghost before = out@;
            let ghost old_i: int = i as int;
            push(out, &mut i, 0x30 + d as u8);
            proof {
                assert forall|j: int| old_i + 1 <= j < 16 implies out@[j] == old(out)@[j] by {
                    assert(out@[j] == before[j]);
                    assert(before.subrange(old_i, 16)[j - old_i] == old(out)@.subrange(old_i, 16)[j - old_i]);
                }
            }
            started = true;
            proof {
                assert(out@.subrange(0, i as int) =~= prefix.push(digit(d as int)));
                assert(out@.subrange(i as int, 16) =~= old(out)@.subrange(i as int, 16));
                if w >= 10 {
                    assert(decimal_text(w as nat) == decimal_text((w / 10) as nat) + seq![
                        digit(w % 10),
                    ]);
                    assert(decimal_text(w as nat) =~= prefix.push(digit(d as int)));
                } else {
                    assert(decimal_text(w as nat) =~= prefix.push(digit(d as int)));
                }
            }
        }
        divisor = divisor / 10;
    }

    let ghost mid: int = i as int;
    let ghost before = out@;
    push(out, &mut i, 0x2e);
    push(out, &mut i, 0x30 + ((litres / 100) % 10) as u8);
    push(out, &mut i, 0x30 + ((litres / 10) % 10) as u8);
    push(out, &mut i, 0x30 + (litres % 10) as u8);
    push(out, &mut i, 0x20);
    push(out, &mut i, 0x6d);
    push(out, &mut i, 0x33);
    proof {
        assert(out@.subrange(0, i as int) =~= reading_text(totals.litres));
        assert forall|j: int| i <= j < 16 implies out@[j] == old(out)@[j] by {
            assert(out@[j] == before[j]);
            assert(before.subrange(mid, 16)[j - mid] == old(out)@.subrange(mid, 16)[j - mid]);
        }
        assert(out@.subrange(i as int, 16) =~= old(out)@.subrange(i as int, 16));
    }
    i
}

/// One line of text to draw at the start of a page.
pub struct Line {
    /// The page, which is a row eight pixels high.
    pub page: u8,
    /// The characters, one glyph each.
    pub text: Vec<u8>,
}

/// The reading as it is drawn: padded with spaces to eleven characters, so a reading that shortens
/// does not leave the old digits behind.
pub open spec fn shown_reading(litres: u32) -> Seq<u8> {
    let t = reading_text(litres);
    if t.len() >= 11 {
        t
    } else {
        t + Seq::new((11 - t.len()) as nat, |i: int| 0x20u8)
    }
}

/// `Error 0`, the mark of an instrument that has not been calibrated and sealed.
pub open spec fn not_calibrated_text() -> Seq<u8> {
    seq![0x45u8, 0x72u8, 0x72u8, 0x6fu8, 0x72u8, 0x20u8, 0x30u8]
}

/// What a redraw puts on the panel: the reading on page 2 and, for an instrument that may not be
/// billed from, `Error 0` on page 5. Only these lines are rewritten, not the whole panel: a full
/// clear between frames is what makes a display flicker.
pub fn update_lines(totals: &Totals, calibrated: bool) -> (r: Vec<Line>)
    ensures
        r@.len() == (if calibrated { 1int } else { 2int }),
        r@[0].page == 2,
        r@[0].text@ == shown_reading(totals.litres),
        !calibrated ==> r@[1].page == 5 && r@[1].text@ == not_calibrated_text(),
{
    let mut line: [u8; 16] = [0x20u8; 16];
    let ghost blank = line@;
    let n: usize = format_reading(totals, &mut line);
    let shown: usize = if n > 11 {
        n
    } else {
        11
    };
    let mut text: Vec<u8> = Vec::new();
    let mut i: usize = 0;
    while i < shown
        invariant
            i <= shown <= 16,
            n <= 12,
            shown == (if n > 11 { n } else { 11 }),
            line@.subrange(0, n as int) == reading_text(totals.litres),
            line@.subrange(n as int, 16) == blank.subrange(n as int, 16),
            blank == Seq::new(16, |j: int| 0x20u8),
            text@ == line@.subrange(0, i as int),
        decreases shown - i,
    {
        text.push(line[i]);
        i = i + 1;
        proof {
            assert(text@ =~= line@.subrange(0, i as int));
        }
    }
    proof {
        assert forall|j: int| n <= j < 16 implies line@[j] == 0x20u8 by {
            assert(line@.subrange(n as int, 16)[j - n] == blank.subrange(n as int, 16)[j - n]);
        }
        assert(text@ =~= shown_reading(totals.litres));
    }
    let mut lines: Vec<Line> = Vec::new();
    lines.push(Line { page: 2, text });
    if !calibrated {
        lines.push(Line { page: 5, text: vec![0x45, 0x72, 0x72, 0x6f, 0x72, 0x20, 0x30] });
    }
    lines
}

} // verus!
