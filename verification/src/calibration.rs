//! The production interface: how a flow rig gets its verdict into the instrument.
//!
//! A line-based ASCII protocol, because the other end is a rig in a calibration room and a person
//! watching a terminal. It stops existing when the instrument is sealed: a sealed instrument does
//! not serve it at all, and the write path in [`params::store`] would refuse anyway. That is the
//! whole of the answer to WELMEC 7.2 P4.
//!
//! | | |
//! | --- | --- |
//! | `I` | identity: software version, image checksum, image length |
//! | `P` | the current parameters |
//! | `T` | the reading, and the write counter |
//! | `M` | run one measurement and report the raw difference in flight time |
//! | `W <n> <value>` | set parameter `n`. Refused once sealed |
//! | `S` | seal the instrument. There is no command to unseal it |
//!
//! `M` is the one the rig actually uses: set a known flow, read the picoseconds the instrument
//! reports, and from a run of those work out the zero offset and the correction that go back in
//! through `W`.
//!
//! Anything else is answered with `?`. Every answer but the final `SEALED` is followed by a line
//! end.

use vstd::prelude::*;
use crate::legal::params::{self, Params, WriteError, SEALED};
use crate::legal::totals::Totals;
use crate::meter::Capture;

verus! {

/// Longest command line accepted; longer lines are cut to this.
pub const LINE: usize = 32;

/// The first index at or after `i` that is not a space.
pub open spec fn skip_spaces(line: Seq<u8>, i: int) -> int
    decreases line.len() - i,
{
    if 0 <= i < line.len() && line[i] == 0x20 {
        skip_spaces(line, i + 1)
    } else {
        i
    }
}

/// Whether a byte is an ASCII decimal digit.
pub open spec fn is_digit(c: u8) -> bool {
    0x30 <= c <= 0x39
}

/// The first index at or after `i` that is not a digit.
pub open spec fn skip_digits(line: Seq<u8>, i: int) -> int
    decreases line.len() - i,
{
    if 0 <= i < line.len() && is_digit(line[i]) {
        skip_digits(line, i + 1)
    } else {
        i
    }
}

/// The value of the digits `line[start..end]`, in decimal.
pub open spec fn digits_value(line: Seq<u8>, start: int, end: int) -> int
    decreases end - start,
{
    if end <= start {
        0
    } else {
        10 * digits_value(line, start, end - 1) + (line[end - 1] - 0x30)
    }
}

/// A decimal number read from `line` at `at`: leading spaces, an optional minus sign, at least one
/// digit, and a magnitude that fits an `i32`. The value and where it ended, or `None`.
pub open spec fn parsed_number(line: Seq<u8>, at: int) -> Option<(i32, int)> {
    let s = skip_spaces(line, at);
    let negative = 0 <= s < line.len() && line[s] == 0x2d;
    let start = if negative { s + 1 } else { s };
    let end = skip_digits(line, start);
    if end == start || digits_value(line, start, end) > i32::MAX {
        None
    } else if negative {
        Some(((-digits_value(line, start, end)) as i32, end))
    } else {
        Some((digits_value(line, start, end) as i32, end))
    }
}

proof fn lemma_skip_digits_bounds(line: Seq<u8>, i: int)
    requires
        0 <= i,
    ensures
        i <= skip_digits(line, i),
        i <= line.len() ==> skip_digits(line, i) <= line.len(),
        forall|j: int| i <= j < skip_digits(line, i) ==> is_digit(#[trigger] line[j]),
        skip_digits(line, i) < line.len() ==> !is_digit(line[skip_digits(line, i)]),
        skip_digits(line, i) > line.len() ==> skip_digits(line, i) == i,
    decreases line.len() - i,
{
    if 0 <= i < line.len() && is_digit(line[i]) {
        lemma_skip_digits_bounds(line, i + 1);
    }
}

proof fn lemma_skip_spaces_bounds(line: Seq<u8>, i: int)
    requires
        0 <= i,
    ensures
        i <= skip_spaces(line, i),
        i <= line.len() ==> skip_spaces(line, i) <= line.len(),
        skip_spaces(line, i) > line.len() ==> skip_spaces(line, i) == i,
        skip_spaces(line, i) < line.len() ==> line[skip_spaces(line, i)] != 0x20,
    decreases line.len() - i,
{
    if 0 <= i < line.len() && line[i] == 0x20 {
        lemma_skip_spaces_bounds(line, i + 1);
    }
}

/// The value of a run of digits only grows as the run does.
proof fn lemma_digits_value_grows(line: Seq<u8>, start: int, a: int, b: int)
    requires
        start <= a <= b,
        forall|j: int| start <= j < b ==> is_digit(#[trigger] line[j]),
    ensures
        0 <= digits_value(line, start, a) <= digits_value(line, start, b),
    decreases b - a,
{
    if a < b {
        lemma_digits_value_grows(line, start, a, b - 1);
        lemma_digits_value_nonneg(line, start, b - 1);
    } else {
        lemma_digits_value_nonneg(line, start, a);
    }
}

proof fn lemma_digits_value_nonneg(line: Seq<u8>, start: int, end: int)
    requires
        forall|j: int| start <= j < end ==> is_digit(#[trigger] line[j]),
    ensures
        0 <= digits_value(line, start, end),
    decreases end - start,
{
    if end > start {
        lemma_digits_value_nonneg(line, start, end - 1);
    }
}

/// Read one decimal starting at `at`, and say where it ended.
///
/// `None` on anything that is not a number, including one too long to hold — a rig sending
/// nonsense gets a refusal rather than a wrapped value written into a calibration.
pub fn number(line: &[u8], at: usize) -> (r: Option<(i32, usize)>)
    ensures
        match r {
            Some((v, end)) => parsed_number(line@, at as int) == Some((v, end as int)),
            None => parsed_number(line@, at as int) is None,
        },
{
    proof {
        lemma_skip_spaces_bounds(line@, at as int);
    }
    let mut i: usize = at;
    while i < line.len() && line[i] == 0x20u8
        invariant
            at <= i,
            skip_spaces(line@, at as int) == skip_spaces(line@, i as int),
        decreases line.len() - i,
    {
        i = i + 1;
    }
    assert(skip_spaces(line@, at as int) == i);
    let s: Ghost<int> = Ghost(i as int);
    let negative: bool = i < line.len() && line[i] == 0x2du8;
    if negative {
        i = i + 1;
    }
    let start: usize = i;
    proof {
        lemma_skip_digits_bounds(line@, start as int);
    }
    let mut value: i32 = 0;
    while i < line.len() && 0x30u8 <= line[i] && line[i] <= 0x39u8
        invariant
            start <= i,
            i <= line.len() || i == start,
            skip_digits(line@, i as int) == skip_digits(line@, start as int),
            forall|j: int| start <= j < i ==> is_digit(#[trigger] line@[j]),
            value == digits_value(line@, start as int, i as int),
            0 <= value,
            skip_spaces(line@, at as int) == s@,
            start == (if 0 <= s@ < line@.len() && line@[s@] == 0x2d { s@ + 1 } else { s@ }),
        decreases line.len() - i,
    {
        let digit: i32 = (line[i] - 0x30u8) as i32;
        let end: Ghost<int> = Ghost(skip_digits(line@, start as int));
        let next: Option<i32> = match value.checked_mul(10) {
            Some(tens) => tens.checked_add(digit),
            None => None,
        };
        match next {
            Some(v) => {
                value = v;
            },
            None => {
                proof {
                    lemma_skip_digits_bounds(line@, i as int);
                    assert(digits_value(line@, start as int, i + 1) > i32::MAX);
                    assert(end@ >= i + 1);
                    assert forall|j: int| start <= j < end@ implies is_digit(#[trigger] line@[j]) by {
                        if j >= i {
                            assert(i <= j < skip_digits(line@, i as int));
                        }
                    }
                    lemma_digits_value_grows(line@, start as int, i + 1, end@);
                    assert(digits_value(line@, start as int, end@) > i32::MAX);
                    assert(skip_spaces(line@, at as int) == s@);
                }
                return None;
            },
        }
        i = i + 1;
    }
    if i == start {
        return None;
    }
    Some((if negative { -value } else { value }, i))
}

/// The parameters with parameter `index` set to `value`, if there is such a parameter. The
/// numbering is the protocol and must not be reordered; values go in as the field's own type.
pub open spec fn assigned(p: Params, index: i32, value: i32) -> Option<Params> {
    if index == 0 {
        Some(Params { serial: value as u32, ..p })
    } else if index == 1 {
        Some(Params { path_um: value as u32, ..p })
    } else if index == 2 {
        Some(Params { axial_um: value as u32, ..p })
    } else if index == 3 {
        Some(Params { bore_area_mm2_100: value as u32, ..p })
    } else if index == 4 {
        Some(Params { calibration_ppm: value, ..p })
    } else if index == 5 {
        Some(Params { zero_offset_ps: value, ..p })
    } else if index == 6 {
        Some(Params { excitation_hz: value as u32, ..p })
    } else if index == 7 {
        Some(Params { burst_threshold: value as i16, ..p })
    } else {
        None
    }
}

/// Assign parameter `index`; false, with nothing changed, if there is no such parameter.
pub fn set(p: &mut Params, index: i32, value: i32) -> (r: bool)
    ensures
        r == assigned(*old(p), index, value) is Some,
        r ==> *final(p) == assigned(*old(p), index, value)->Some_0,
        !r ==> *final(p) == *old(p),
{
    match index {
        0 => p.serial = value as u32,
        1 => p.path_um = value as u32,
        2 => p.axial_um = value as u32,
        3 => p.bore_area_mm2_100 = value as u32,
        4 => p.calibration_ppm = value,
        5 => p.zero_offset_ps = value,
        6 => p.excitation_hz = value as u32,
        7 => p.burst_threshold = #[verifier::truncate] (value as i16),
        _ => return false,
    }
    true
}

/// The decimal digits of `n`, most significant first, with no leading zeroes.
pub open spec fn decimal_text(n: nat) -> Seq<u8>
    decreases n,
{
    if n < 10 {
        seq![(0x30 + n) as u8]
    } else {
        decimal_text(n / 10) + seq![(0x30 + n % 10) as u8]
    }
}

/// A signed decimal, then a space: how every number goes out on this interface.
pub open spec fn num_text(value: i32) -> Seq<u8> {
    if value < 0 {
        seq![0x2du8] + decimal_text((-value) as nat) + seq![0x20u8]
    } else {
        decimal_text(value as nat) + seq![0x20u8]
    }
}

/// Ten to the `n`.
pub open spec fn pow10(n: nat) -> nat
    decreases n,
{
    if n == 0 {
        1
    } else {
        10 * pow10((n - 1) as nat)
    }
}

/// A signed decimal, then a space.
pub fn num(value: i32) -> (r: Vec<u8>)
    ensures
        r@ == num_text(value),
{
    let mut digits: [u8; 12] = [0u8; 12];
    let negative: bool = value < 0;
    let mut v: u32 = if negative {
        (-(value as i64)) as u32
    } else {
        value as u32
    };
    let ghost v0: nat = v as nat;
    let mut i: usize = digits.len();
    proof {
        reveal_with_fuel(pow10, 11);
        assert(pow10(10) == 10_000_000_000);
    }
    loop
        invariant_except_break
            2 <= i <= 12,
            v < pow10((i - 2) as nat),
            (i == 12 && v == v0) || (v > 0 && decimal_text(v0) == decimal_text(v as nat) + digits@.subrange(i as int, 12)),
        ensures
            1 <= i <= 12,
            decimal_text(v0) == digits@.subrange(i as int, 12),
        decreases i,
    {
        let ghost old_v: nat = v as nat;
        let ghost old_tail: Seq<u8> = digits@.subrange(i as int, 12);
        proof {
            if v > 0 {
                assert(i >= 3) by {
                    if i == 2 {
                        assert(pow10(0) == 1);
                    }
                }
            }
        }
        i = i - 1;
        digits[i] = 0x30u8 + (v % 10) as u8;
        v = v / 10;
        proof {
            assert(digits@.subrange(i as int, 12) =~= seq![(0x30 + old_v % 10) as u8] + old_tail);
            assert(v < pow10((i - 2) as nat)) by {
                if i > 2 {
                    assert(pow10((i + 1 - 2) as nat) == 10 * pow10((i - 2) as nat));
                }
            }
        }
        if v == 0 || i == 1 {
            break;
        }
    }
    let mut out: Vec<u8> = Vec::new();
    if negative {
        out.push(0x2du8);
    }
    let mut j: usize = i;
    while j < 12
        invariant
            i <= j <= 12,
            1 <= i,
            out@ == (if negative { seq![0x2du8] } else { Seq::<u8>::empty() }) + digits@.subrange(i as int, j as int),
        decreases 12 - j,
    {
        out.push(digits[j]);
        j = j + 1;
        proof {
            assert(digits@.subrange(i as int, j as int) =~= digits@.subrange(i as int, j - 1).push(digits@[j - 1]));
        }
    }
    out.push(0x20u8);
    proof {
        assert(v0 == (if value < 0 { (-value) as nat } else { value as nat }));
    }
    out
}

/// Whether nothing but spaces stands in `line` from `i` on.
pub open spec fn blank_from(line: Seq<u8>, i: int) -> bool {
    skip_spaces(line, i) >= line.len()
}

/// Whether nothing but spaces stands in `line` from `from` on.
pub fn blank_after(line: &[u8], from: usize) -> (r: bool)
    ensures
        r == blank_from(line@, from as int),
{
    proof {
        lemma_skip_spaces_bounds(line@, from as int);
    }
    let mut i: usize = from;
    while i < line.len() && line[i] == 0x20u8
        invariant
            from <= i,
            skip_spaces(line@, from as int) == skip_spaces(line@, i as int),
        decreases line.len() - i,
    {
        i = i + 1;
    }
    i >= line.len()
}

/// A complete command line, as the instrument understood it.
#[derive(Copy, Clone, Debug, PartialEq, Eq, Structural)]
pub enum Command {
    /// `I`: identify the software.
    Identify,
    /// `P`: report the parameters.
    Parameters,
    /// `T`: report the reading and the write counter.
    Reading,
    /// `M`: measure once and report the raw difference in flight time.
    Measure,
    /// `W <index> <value>`: set one parameter.
    Write(i32, i32),
    /// A `W` that is not exactly two numbers.
    Malformed,
    /// `S`: seal the instrument.
    Seal,
    /// Anything else.
    Unknown,
}

/// What a line means, by its first byte. A write that cannot be parsed exactly — two numbers, and
/// nothing after them but spaces — is refused rather than half-applied: this is the one path that
/// changes what the instrument measures.
pub open spec fn command_of(line: Seq<u8>) -> Command {
    if line[0] == 0x49 {
        Command::Identify
    } else if line[0] == 0x50 {
        Command::Parameters
    } else if line[0] == 0x54 {
        Command::Reading
    } else if line[0] == 0x4d {
        Command::Measure
    } else if line[0] == 0x57 {
        match parsed_number(line, 1) {
            Some((index, next)) => match parsed_number(line, next) {
                Some((value, end)) => if blank_from(line, end) {
                    Command::Write(index, value)
                } else {
                    Command::Malformed
                },
                None => Command::Malformed,
            },
            None => Command::Malformed,
        }
    } else if line[0] == 0x53 {
        Command::Seal
    } else {
        Command::Unknown
    }
}

/// What a line means. See [`command_of`].
pub fn parse(line: &[u8]) -> (r: Command)
    requires
        line@.len() > 0,
    ensures
        r == command_of(line@),
{
    if line[0] == 0x49 {
        Command::Identify
    } else if line[0] == 0x50 {
        Command::Parameters
    } else if line[0] == 0x54 {
        Command::Reading
    } else if line[0] == 0x4d {
        Command::Measure
    } else if line[0] == 0x57 {
        match number(line, 1) {
            Some((index, next)) => match number(line, next) {
                Some((value, end)) => if blank_after(line, end) {
                    Command::Write(index, value)
                } else {
                    Command::Malformed
                },
                None => Command::Malformed,
            },
            None => Command::Malformed,
        }
    } else if line[0] == 0x53 {
        Command::Seal
    } else {
        Command::Unknown
    }
}

/// Whether a byte ends a line.
pub open spec fn is_line_end(byte: u8) -> bool {
    byte == 0x0d || byte == 0x0a
}

/// The line being received.
pub struct Console {
    line: [u8; LINE],
    len: usize,
}

impl Console {
    #[verifier::type_invariant]
    spec fn fits(self) -> bool {
        self.len <= LINE
    }

    /// The bytes received since the last line end, as many as fit.
    pub closed spec fn pending(self) -> Seq<u8> {
        self.line@.subrange(0, self.len as int)
    }

    /// Nothing received yet.
    pub fn new() -> (r: Console)
        ensures
            r.pending() == Seq::<u8>::empty(),
    {
        Console { line: [0u8; LINE], len: 0 }
    }

    /// Take one byte from the line. A line end completes a command, unless the line is empty;
    /// anything else is kept, up to [`LINE`] bytes, and the rest of an over-long line dropped.
    pub fn accept(&mut self, byte: u8) -> (r: Option<Command>)
        ensures
            !is_line_end(byte) ==> r is None && final(self).pending() == (if old(self).pending().len()
                < LINE {
                old(self).pending().push(byte)
            } else {
                old(self).pending()
            }),
            is_line_end(byte) && old(self).pending().len() == 0 ==> r is None && final(self).pending()
                == old(self).pending(),
            is_line_end(byte) && old(self).pending().len() > 0 ==> r == Some(
                command_of(old(self).pending()),
            ) && final(self).pending() == Seq::<u8>::empty(),
    {
        proof {
            use_type_invariant(&*self);
        }
        if byte != 0x0d && byte != 0x0a {
            if self.len < LINE {
                let ghost before = self.pending();
                let len: usize = self.len;
                self.line[len] = byte;
                self.len = len + 1;
                assert(self.pending() =~= before.push(byte));
            }
            return None;
        }
        if self.len == 0 {
            return None;
        }
        let command: Command = parse(self.line.as_slice().split_at(self.len).0);
        self.len = 0;
        assert(self.pending() =~= Seq::<u8>::empty());
        Some(command)
    }
}

/// `OK`.
pub open spec fn ok_text() -> Seq<u8> {
    seq![0x4fu8, 0x4bu8]
}

/// `ERR`.
pub open spec fn err_text() -> Seq<u8> {
    seq![0x45u8, 0x52u8, 0x52u8]
}

/// `SEALED`.
pub open spec fn sealed_text() -> Seq<u8> {
    seq![0x53u8, 0x45u8, 0x41u8, 0x4cu8, 0x45u8, 0x44u8]
}

/// `EXHAUSTED`.
pub open spec fn exhausted_text() -> Seq<u8> {
    seq![0x45u8, 0x58u8, 0x48u8, 0x41u8, 0x55u8, 0x53u8, 0x54u8, 0x45u8, 0x44u8]
}

/// `?`.
pub open spec fn unknown_text() -> Seq<u8> {
    seq![0x3fu8]
}

/// The parameters as `P` reports them: the eight settable ones in protocol order, then the write
/// counter, each as a signed decimal and a space.
pub open spec fn parameters_text(p: Params) -> Seq<u8> {
    num_text(p.serial as i32) + num_text(p.path_um as i32) + num_text(p.axial_um as i32) + num_text(
        p.bore_area_mm2_100 as i32,
    ) + num_text(p.calibration_ppm) + num_text(p.zero_offset_ps) + num_text(p.excitation_hz as i32)
        + num_text(p.burst_threshold as i32) + num_text(p.writes as i32)
}

/// The reading as `T` reports it: whole litres, the microlitres on top, then the parameters' write
/// counter, which is reported alongside the reading so that a write since the certificate shows.
pub open spec fn reading_text(t: Totals, p: Params) -> Seq<u8> {
    num_text(t.litres as i32) + num_text(t.microlitres as i32) + num_text(p.writes as i32)
}

/// What `M` reports of one capture: the raw difference in flight time, in picoseconds, with no
/// zero offset taken off it; `ERR` if the front end delivered no echo.
pub open spec fn measurement_text(capture: Capture) -> Seq<u8> {
    match capture {
        Capture::Echo { delta_t_ps, .. } => num_text(delta_t_ps),
        _ => err_text(),
    }
}

/// The numbers `P` reports, in the order it reports them: the eight settable parameters by their
/// protocol number, then the write counter.
pub open spec fn reported(p: Params) -> Seq<i32> {
    seq![
        p.serial as i32,
        p.path_um as i32,
        p.axial_um as i32,
        p.bore_area_mm2_100 as i32,
        p.calibration_ppm,
        p.zero_offset_ps,
        p.excitation_hz as i32,
        p.burst_threshold as i32,
        p.writes as i32,
    ]
}

/// Each of `values` as a signed decimal and a space, in order.
pub open spec fn numbers_text(values: Seq<i32>) -> Seq<u8>
    decreases values.len(),
{
    if values.len() == 0 {
        Seq::empty()
    } else {
        numbers_text(values.drop_last()) + num_text(values.last())
    }
}

/// `P` answers with [`reported`], number by number.
pub proof fn lemma_parameters_text_reports(p: Params)
    ensures
        parameters_text(p) == numbers_text(reported(p)),
{
    let r = reported(p);
    assert(r.drop_last().drop_last().drop_last().drop_last().drop_last().drop_last().drop_last()
        .drop_last().drop_last() =~= Seq::<i32>::empty());
    reveal_with_fuel(numbers_text, 10);
    assert(r.drop_last() =~= seq![r[0], r[1], r[2], r[3], r[4], r[5], r[6], r[7]]);
    assert(r.drop_last().drop_last() =~= seq![r[0], r[1], r[2], r[3], r[4], r[5], r[6]]);
    assert(r.drop_last().drop_last().drop_last() =~= seq![r[0], r[1], r[2], r[3], r[4], r[5]]);
    assert(r.drop_last().drop_last().drop_last().drop_last() =~= seq![r[0], r[1], r[2], r[3], r[4]]);
    assert(r.drop_last().drop_last().drop_last().drop_last().drop_last() =~= seq![r[0], r[1], r[2], r[3]]);
    assert(r.drop_last().drop_last().drop_last().drop_last().drop_last().drop_last() =~= seq![r[0], r[1], r[2]]);
    assert(r.drop_last().drop_last().drop_last().drop_last().drop_last().drop_last().drop_last() =~= seq![r[0], r[1]]);
    assert(r.drop_last().drop_last().drop_last().drop_last().drop_last().drop_last().drop_last()
        .drop_last() =~= seq![r[0]]);
    assert(parameters_text(p) =~= numbers_text(r));
}

/// `W n v` writes the parameter `P` reports as its `n`-th number: after it, `P` reports `v` there
/// — cut to the sixteen bits the burst threshold is kept in, for that one — and every other number
/// as it was. No other number names a parameter, and nothing outside what `P` reports changes.
pub proof fn lemma_write_lands_where_reported(p: Params, index: i32, value: i32)
    ensures
        (0 <= index < 8) <==> assigned(p, index, value) is Some,
        assigned(p, index, value) matches Some(q) ==> {
            &&& reported(q) == reported(p).update(
                index as int,
                if index == 7 { (value as i16) as i32 } else { value },
            )
            &&& parameters_text(q) == numbers_text(reported(p).update(
                index as int,
                if index == 7 { (value as i16) as i32 } else { value },
            ))
            &&& q.version == p.version && q.seal == p.seal && q.writes == p.writes && q.crc == p.crc
        },
{
    assert((value as u32) as i32 == value) by (bit_vector);
    if let Some(q) = assigned(p, index, value) {
        assert(reported(q) =~= reported(p).update(
            index as int,
            if index == 7 { (value as i16) as i32 } else { value },
        ));
        lemma_parameters_text_reports(q);
    }
}

/// The identification as `I` reports it: the version, a space, then the image checksum in two
/// halves — since everything else here is signed — and the image length.
pub open spec fn identity_text(version: Seq<u8>, crc: u32, len: u16) -> Seq<u8> {
    version + seq![0x20u8] + num_text((crc >> 16u32) as i32) + num_text((crc & 0xffffu32) as i32)
        + num_text(len as i32)
}

fn text(bytes: &[u8]) -> (r: Vec<u8>)
    ensures
        r@ == bytes@,
{
    let mut out: Vec<u8> = Vec::new();
    let mut i: usize = 0;
    while i < bytes.len()
        invariant
            i <= bytes.len(),
            out@ == bytes@.take(i as int),
        decreases bytes.len() - i,
    {
        out.push(bytes[i]);
        i = i + 1;
        proof {
            assert(bytes@.take(i as int) =~= bytes@.take((i - 1) as int).push(bytes@[i - 1]));
        }
    }
    assert(bytes@.take(bytes.len() as int) =~= bytes@);
    out
}

fn extend(dst: &mut Vec<u8>, src: Vec<u8>)
    ensures
        final(dst)@ == old(dst)@ + src@,
{
    let mut i: usize = 0;
    while i < src.len()
        invariant
            i <= src.len(),
            dst@ == old(dst)@ + src@.take(i as int),
        decreases src.len() - i,
    {
        dst.push(src[i]);
        i = i + 1;
        proof {
            assert(src@.take(i as int) =~= src@.take((i - 1) as int).push(src@[i - 1]));
        }
    }
    assert(src@.take(src.len() as int) =~= src@);
}

/// The parameters as `P` reports them.
pub fn parameters_reply(p: &Params) -> (r: Vec<u8>)
    ensures
        r@ == parameters_text(*p),
{
    let mut out: Vec<u8> = num(p.serial as i32);
    extend(&mut out, num(p.path_um as i32));
    extend(&mut out, num(p.axial_um as i32));
    extend(&mut out, num(p.bore_area_mm2_100 as i32));
    extend(&mut out, num(p.calibration_ppm));
    extend(&mut out, num(p.zero_offset_ps));
    extend(&mut out, num(p.excitation_hz as i32));
    extend(&mut out, num(p.burst_threshold as i32));
    extend(&mut out, num(p.writes as i32));
    out
}

/// The reading as `T` reports it.
pub fn reading_reply(t: &Totals, p: &Params) -> (r: Vec<u8>)
    ensures
        r@ == reading_text(*t, *p),
{
    let mut out: Vec<u8> = num(t.litres as i32);
    extend(&mut out, num(t.microlitres as i32));
    extend(&mut out, num(p.writes as i32));
    out
}

/// What `M` reports of one capture.
pub fn measurement_reply(capture: &Capture) -> (r: Vec<u8>)
    ensures
        r@ == measurement_text(*capture),
{
    match *capture {
        Capture::Echo { delta_t_ps, .. } => num(delta_t_ps),
        _ => vec![0x45, 0x52, 0x52],
    }
}

/// The identification as `I` reports it, given the version and what the image check measured.
pub fn identity_reply(version: &[u8], crc: u32, len: u16) -> (r: Vec<u8>)
    ensures
        r@ == identity_text(version@, crc, len),
{
    let mut out: Vec<u8> = text(version);
    out.push(0x20);
    extend(&mut out, num((crc >> 16u32) as i32));
    extend(&mut out, num((crc & 0xffff) as i32));
    extend(&mut out, num(len as i32));
    out
}

/// What to do about a command.
pub enum Response {
    /// Send the identification, [`identity_reply`], then a line end.
    Identify,
    /// Run one measurement, send what [`measurement_reply`] makes of it, then a line end.
    Measure,
    /// Send this, then a line end.
    Reply(Vec<u8>),
    /// Write `record` to both copies in [`params::write_order`], read the parameters back, then send `reply`
    /// and a line end.
    Store { record: Params, reply: Vec<u8> },
    /// Write `record` to both copies, read the parameters back, send `SEALED` and a line end, and
    /// serve nothing further: the instrument has left the calibration room.
    Sealed { record: Params },
}

/// The answer to `command`, given the live parameters, the ones stored in FRAM, and the reading.
///
/// A write is applied to a copy of the live parameters, so a rejected index cannot leave them
/// half-written, and goes through [`params::store`], which refuses a sealed instrument.
pub fn respond(command: &Command, live: &Params, stored: &Params, totals: &Totals) -> (r: Response)
    ensures
        match *command {
            Command::Identify => r is Identify,
            Command::Parameters => r matches Response::Reply(t) && t@ == parameters_text(*live),
            Command::Reading => r matches Response::Reply(t) && t@ == reading_text(*totals, *live),
            Command::Measure => r is Measure,
            Command::Write(index, value) => match assigned(*live, index, value) {
                None => r matches Response::Reply(t) && t@ == err_text(),
                Some(candidate) => match params::write_outcome(*stored, candidate) {
                    Ok(record) => r matches Response::Store { record: out, reply: t } && out
                        == record && t@ == ok_text(),
                    Err(WriteError::Sealed) => r matches Response::Reply(t) && t@ == sealed_text(),
                    Err(WriteError::CounterExhausted) => r matches Response::Reply(t) && t@
                        == exhausted_text(),
                },
            },
            Command::Malformed => r matches Response::Reply(t) && t@ == err_text(),
            Command::Seal => match params::write_outcome(*stored, Params { seal: SEALED, ..*live }) {
                Ok(record) => r matches Response::Sealed { record: out } && out == record,
                Err(_) => r matches Response::Reply(t) && t@ == err_text(),
            },
            Command::Unknown => r matches Response::Reply(t) && t@ == unknown_text(),
        },
        // Nothing said over this interface changes a sealed instrument.
        params::sealed(*stored) ==> !(r is Store) && !(r is Sealed),
{
    match *command {
        Command::Identify => Response::Identify,
        Command::Parameters => Response::Reply(parameters_reply(live)),
        Command::Reading => Response::Reply(reading_reply(totals, live)),
        Command::Measure => Response::Measure,
        Command::Write(index, value) => {
            let mut candidate: Params = *live;
            if !set(&mut candidate, index, value) {
                return Response::Reply(vec![0x45, 0x52, 0x52]);
            }
            match params::store(stored, &candidate) {
                Ok(record) => Response::Store { record, reply: vec![0x4f, 0x4b] },
                Err(WriteError::Sealed) => Response::Reply(vec![0x53, 0x45, 0x41, 0x4c, 0x45, 0x44]),
                Err(WriteError::CounterExhausted) => Response::Reply(
                    vec![0x45, 0x58, 0x48, 0x41, 0x55, 0x53, 0x54, 0x45, 0x44],
                ),
            }
        },
        Command::Malformed => Response::Reply(vec![0x45, 0x52, 0x52]),
        Command::Seal => {
            let mut sealed: Params = *live;
            sealed.seal = SEALED;
            match params::store(stored, &sealed) {
                Ok(record) => Response::Sealed { record },
                Err(_) => Response::Reply(vec![0x45, 0x52, 0x52]),
            }
        },
        Command::Unknown => Response::Reply(vec![0x3f]),
    }
}

} // verus!
