//! Compact duration codec.
//!
//! Durations are written as an optional hour, minute and second component,
//! each `<integer><unit>` with unit `h`, `m` or `s` (case-insensitive),
//! concatenated in that order with no separators: `"25m"`, `"1h30m"`,
//! `"3h2m1s"`, `"45s"`. At least one component must be present. The value is
//! `h * 3600 + m * 60 + s` seconds.
//!
//! Formatting renders the minimal text that parses back to the same value:
//! the hour component only when the span reaches one hour, the minute
//! component only when the sub-hour minute remainder is non-zero, and the
//! second component only when the second remainder is non-zero or nothing
//! larger is shown (so zero renders as `"0s"`, never as an empty string).

use vstd::prelude::*;
use vstd::string::StringExecFns;

verus! {

/// Why a duration string failed to parse.
#[derive(Clone, Copy, Debug, PartialEq, Eq, Structural)]
pub enum ParseError {
    /// The text holds no unit letter at all, or ends in characters that no
    /// unit letter terminates (this includes the empty string).
    NoUnitsFound,
    /// The hour component is present but is not a plain decimal integer that
    /// fits in 64 bits.
    InvalidHours,
    /// The minute component is present but is not a plain decimal integer
    /// that fits in 64 bits.
    InvalidMinutes,
    /// The second component is present but is not a plain decimal integer
    /// that fits in 64 bits.
    InvalidSeconds,
    /// A unit letter is repeated or appears out of the `h`, `m`, `s` order.
    UnitOutOfOrder,
    /// Every component is well-formed but the total number of seconds does
    /// not fit in 64 bits.
    Overflow,
}

/// True for the ASCII digits `'0'` through `'9'`.
pub open spec fn is_digit_char(c: char) -> bool {
    ('0' as u32) <= (c as u32) && (c as u32) <= ('9' as u32)
}

/// Numeric value of an ASCII digit.
pub open spec fn digit_val(c: char) -> nat
    recommends
        is_digit_char(c),
{
    ((c as u32) - ('0' as u32)) as nat
}

/// Value of a string of decimal digits, most significant first.
pub open spec fn dec_val(s: Seq<char>) -> nat
    decreases s.len(),
{
    if s.len() == 0 {
        0
    } else {
        dec_val(s.drop_last()) * 10 + digit_val(s.last())
    }
}

/// True when every character of `s` is an ASCII digit.
pub open spec fn all_digits(s: Seq<char>) -> bool {
    forall|k: int| 0 <= k < s.len() ==> is_digit_char(s[k])
}

/// Rank of a unit letter in the `h`, `m`, `s` order: hours are 0, minutes 1,
/// seconds 2; any other character gets the out-of-range rank 3.
pub open spec fn unit_rank(c: char) -> int {
    if c == 'h' || c == 'H' {
        0
    } else if c == 'm' || c == 'M' {
        1
    } else if c == 's' || c == 'S' {
        2
    } else {
        3
    }
}

/// True for the six unit letters `h`, `m`, `s`, `H`, `M`, `S`.
pub open spec fn is_unit_char(c: char) -> bool {
    unit_rank(c) < 3
}

/// Index of the first unit letter at or after `pos`, or `s.len()` when none
/// follows.
pub open spec fn unit_scan(s: Seq<char>, pos: int) -> int
    decreases s.len() - pos when 0 <= pos <= s.len()
{
    if pos >= s.len() {
        s.len() as int
    } else if is_unit_char(s[pos]) {
        pos
    } else {
        unit_scan(s, pos + 1)
    }
}

/// `unit_scan` lands between `pos` and the end, skips no unit letter, and
/// stops on one when it reports an index inside the text.
pub proof fn lemma_unit_scan(s: Seq<char>, pos: int)
    requires
        0 <= pos <= s.len(),
    ensures
        pos <= unit_scan(s, pos) <= s.len(),
        forall|k: int| pos <= k < unit_scan(s, pos) ==> !is_unit_char(s[k]),
        unit_scan(s, pos) < s.len() ==> is_unit_char(s[unit_scan(s, pos)]),
    decreases s.len() - pos,
{
    if pos < s.len() && !is_unit_char(s[pos]) {
        lemma_unit_scan(s, pos + 1);
    }
}

/// The parse error that names the unit of rank `rank`.
pub open spec fn invalid_number_error(rank: int) -> ParseError {
    if rank == 0 {
        ParseError::InvalidHours
    } else if rank == 1 {
        ParseError::InvalidMinutes
    } else {
        ParseError::InvalidSeconds
    }
}

/// Seconds per unit of rank `rank`.
pub open spec fn unit_weight(rank: int) -> nat {
    if rank == 0 {
        3600
    } else if rank == 1 {
        60
    } else {
        1
    }
}

/// Meaning of the text from `pos` on, given that only units of rank
/// `min_rank` or smaller may still appear: the sum in seconds of the
/// remaining components, or the first error. Each component is the run of
/// characters up to the next unit letter; it must be a non-empty string of
/// digits whose value fits in 64 bits. The sum itself is not bounded here.
pub open spec fn parse_components(s: Seq<char>, pos: int, min_rank: int) -> Result<nat, ParseError>
    decreases s.len() - pos when 0 <= pos <= s.len() via parse_components_decreases
{
    if pos >= s.len() {
        Ok(0)
    } else {
        let j = unit_scan(s, pos);
        if j >= s.len() {
            Err(ParseError::NoUnitsFound)
        } else {
            let r = unit_rank(s[j]);
            if r < min_rank {
                Err(ParseError::UnitOutOfOrder)
            } else if j == pos || !all_digits(s.subrange(pos, j)) || dec_val(
                s.subrange(pos, j),
            ) > u64::MAX {
                Err(invalid_number_error(r))
            } else {
                match parse_components(s, j + 1, r + 1) {
                    Ok(rest) => Ok(dec_val(s.subrange(pos, j)) * unit_weight(r) + rest),
                    Err(e) => Err(e),
                }
            }
        }
    }
}

#[via_fn]
proof fn parse_components_decreases(s: Seq<char>, pos: int, min_rank: int) {
    if 0 <= pos < s.len() {
        lemma_unit_scan(s, pos);
    }
}

/// Meaning of a whole duration string: the total number of seconds, or the
/// first error. The empty string has no unit, and a total beyond 64 bits is
/// an overflow.
pub open spec fn spec_parse(s: Seq<char>) -> Result<u64, ParseError> {
    if s.len() == 0 {
        Err(ParseError::NoUnitsFound)
    } else {
        match parse_components(s, 0, 0) {
            Ok(n) => if n > u64::MAX {
                Err(ParseError::Overflow)
            } else {
                Ok(n as u64)
            },
            Err(e) => Err(e),
        }
    }
}

/// Appending a digit multiplies the value by ten and adds the digit.
pub proof fn lemma_dec_val_push(s: Seq<char>, c: char)
    ensures
        dec_val(s.push(c)) == dec_val(s) * 10 + digit_val(c),
{
    assert(s.push(c).drop_last() =~= s);
}

/// A prefix of a digit string never has a larger value than the whole.
pub proof fn lemma_dec_val_prefix_le(s: Seq<char>, i: int)
    requires
        0 <= i <= s.len(),
    ensures
        dec_val(s.subrange(0, i)) <= dec_val(s),
    decreases s.len(),
{
    if i == s.len() {
        assert(s.subrange(0, i) =~= s);
    } else {
        assert(s.drop_last().subrange(0, i) =~= s.subrange(0, i));
        lemma_dec_val_prefix_le(s.drop_last(), i);
    }
}

/// Exec mirror of `unit_rank`.
fn unit_rank_of(c: char) -> (r: u8)
    ensures
        r as int == unit_rank(c),
{
    if c == 'h' || c == 'H' {
        0
    } else if c == 'm' || c == 'M' {
        1
    } else if c == 's' || c == 'S' {
        2
    } else {
        3
    }
}

/// Finds the first unit letter at or after `pos`.
fn scan_unit(text: &str, pos: usize, n: usize) -> (j: usize)
    requires
        n == text@.len(),
        pos <= n,
    ensures
        j == unit_scan(text@, pos as int),
        pos <= j <= n,
{
    let mut j = pos;
    loop
        invariant
            pos <= j <= n,
            n == text@.len(),
            unit_scan(text@, pos as int) == unit_scan(text@, j as int),
        ensures
            j == unit_scan(text@, pos as int),
            pos <= j <= n,
        decreases n - j,
    {
        if j == n {
            break;
        }
        let c = text.get_char(j);
        if unit_rank_of(c) < 3 {
            break;
        }
        j += 1;
    }
    j
}

/// Reads the decimal component `text[from..to]`: its value when it is a
/// non-empty digit string whose value fits in 64 bits, and nothing otherwise.
fn parse_number(text: &str, from: usize, to: usize) -> (r: Option<u64>)
    requires
        from <= to <= text@.len(),
    ensures
        match r {
            Some(v) => from < to && all_digits(text@.subrange(from as int, to as int)) && dec_val(
                text@.subrange(from as int, to as int),
            ) == v,
            None => from == to || !all_digits(text@.subrange(from as int, to as int)) || dec_val(
                text@.subrange(from as int, to as int),
            ) > u64::MAX,
        },
{
    if from == to {
        return None;
    }
    let ghost whole = text@.subrange(from as int, to as int);
    let mut acc: u64 = 0;
    let mut i = from;
    while i < to
        invariant
            from <= i <= to <= text@.len(),
            whole == text@.subrange(from as int, to as int),
            all_digits(text@.subrange(from as int, i as int)),
            acc == dec_val(text@.subrange(from as int, i as int)),
        decreases to - i,
    {
        let c = text.get_char(i);
        let cv = c as u32;
        if cv < 48 || cv > 57 {
            proof {
                assert(whole[i - from] == c);
            }
            return None;
        }
        let d = (cv - 48) as u64;
        proof {
            assert(text@.subrange(from as int, i + 1).drop_last() =~= text@.subrange(
                from as int,
                i as int,
            ));
            assert(dec_val(text@.subrange(from as int, i + 1)) == acc * 10 + d);
        }
        if acc > (u64::MAX - d) / 10 {
            proof {
                assert(acc * 10 + d > u64::MAX) by (nonlinear_arith)
                    requires
                        d < 10,
                        acc > (u64::MAX - d) / 10,
                ;
                assert(whole.subrange(0, i + 1 - from) =~= text@.subrange(from as int, i + 1));
                lemma_dec_val_prefix_le(whole, i + 1 - from);
            }
            return None;
        }
        proof {
            assert(acc * 10 + d <= u64::MAX) by (nonlinear_arith)
                requires
                    d < 10,
                    acc <= (u64::MAX - d) / 10,
            ;
        }
        acc = acc * 10 + d;
        i += 1;
    }
    proof {
        assert(text@.subrange(from as int, i as int) =~= whole);
    }
    Some(acc)
}

/// Parses a compact duration string into whole seconds.
pub fn parse(text: &str) -> (r: Result<u64, ParseError>)
    ensures
        r == spec_parse(text@),
{
    let n = text.unicode_len();
    if n == 0 {
        return Err(ParseError::NoUnitsFound);
    }
    let mut pos: usize = 0;
    let mut min_rank: u8 = 0;
    let mut hv: u64 = 0;
    let mut mv: u64 = 0;
    let mut sv: u64 = 0;
    while pos < n
        invariant
            n == text@.len(),
            0 < n,
            pos <= n,
            min_rank <= 3,
            min_rank == 0 ==> hv == 0 && mv == 0 && sv == 0,
            min_rank == 1 ==> mv == 0 && sv == 0,
            min_rank == 2 ==> sv == 0,
            (match parse_components(text@, pos as int, min_rank as int) {
                Ok(rest) => parse_components(text@, 0, 0) == Ok::<nat, ParseError>(
                    (hv * 3600 + mv * 60 + sv + rest) as nat,
                ),
                Err(e) => parse_components(text@, 0, 0) == Err::<nat, ParseError>(e),
            }),
        decreases n - pos,
    {
        let j = scan_unit(text, pos, n);
        if j == n {
            return Err(ParseError::NoUnitsFound);
        }
        proof {
            lemma_unit_scan(text@, pos as int);
        }
        let c = text.get_char(j);
        let rank = unit_rank_of(c);
        if rank < min_rank {
            return Err(ParseError::UnitOutOfOrder);
        }
        match parse_number(text, pos, j) {
            None => {
                return Err(
                    if rank == 0 {
                        ParseError::InvalidHours
                    } else if rank == 1 {
                        ParseError::InvalidMinutes
                    } else {
                        ParseError::InvalidSeconds
                    },
                );
            },
            Some(v) => {
                if rank == 0 {
                    hv = v;
                } else if rank == 1 {
                    mv = v;
                } else {
                    sv = v;
                }
                pos = j + 1;
                min_rank = rank + 1;
            },
        }
    }
    let total: u128 = hv as u128 * 3600 + mv as u128 * 60 + sv as u128;
    if total > u64::MAX as u128 {
        Err(ParseError::Overflow)
    } else {
        Ok(total as u64)
    }
}

/// The convention for the sibling input form that is a plain integer with
/// no unit letter: one historical configuration style reads it as whole
/// minutes, the other as whole milliseconds.
#[derive(Clone, Copy, Debug, PartialEq, Eq, Structural)]
pub enum BareConvention {
    WholeMinutes,
    WholeMilliseconds,
}

/// Meaning of a plain-integer duration under a convention, in whole
/// seconds: minutes are scaled up, milliseconds round down. Text that is
/// not a decimal integer fitting 64 bits is rejected naming the
/// convention's unit; a minute total beyond 64 bits of seconds is an
/// overflow.
pub open spec fn spec_parse_bare(s: Seq<char>, conv: BareConvention) -> Result<u64, ParseError> {
    if s.len() == 0 || !all_digits(s) || dec_val(s) > u64::MAX {
        Err(
            match conv {
                BareConvention::WholeMinutes => ParseError::InvalidMinutes,
                BareConvention::WholeMilliseconds => ParseError::InvalidSeconds,
            },
        )
    } else {
        match conv {
            BareConvention::WholeMinutes => if dec_val(s) * 60 > u64::MAX {
                Err(ParseError::Overflow)
            } else {
                Ok((dec_val(s) * 60) as u64)
            },
            BareConvention::WholeMilliseconds => Ok((dec_val(s) / 1000) as u64),
        }
    }
}

/// Parses the sibling plain-integer duration form into whole seconds.
pub fn parse_bare(text: &str, conv: BareConvention) -> (r: Result<u64, ParseError>)
    ensures
        r == spec_parse_bare(text@, conv),
{
    let n = text.unicode_len();
    match parse_number(text, 0, n) {
        None => {
            proof {
                assert(text@.subrange(0, n as int) =~= text@);
            }
            Err(
                match conv {
                    BareConvention::WholeMinutes => ParseError::InvalidMinutes,
                    BareConvention::WholeMilliseconds => ParseError::InvalidSeconds,
                },
            )
        },
        Some(v) => {
            proof {
                assert(text@.subrange(0, n as int) =~= text@);
            }
            match conv {
                BareConvention::WholeMinutes => {
                    if v > u64::MAX / 60 {
                        Err(ParseError::Overflow)
                    } else {
                        Ok(v * 60)
                    }
                },
                BareConvention::WholeMilliseconds => Ok(v / 1000),
            }
        },
    }
}

/// The ASCII digit for a value below ten.
pub open spec fn digit_char(d: nat) -> char {
    if d == 0 {
        '0'
    } else if d == 1 {
        '1'
    } else if d == 2 {
        '2'
    } else if d == 3 {
        '3'
    } else if d == 4 {
        '4'
    } else if d == 5 {
        '5'
    } else if d == 6 {
        '6'
    } else if d == 7 {
        '7'
    } else if d == 8 {
        '8'
    } else {
        '9'
    }
}

/// Decimal rendering of `n`, most significant digit first, no leading zeros
/// (except for `n == 0`, which renders as the single digit `0`).
pub open spec fn dec_str(n: nat) -> Seq<char>
    decreases n,
{
    if n < 10 {
        seq![digit_char(n)]
    } else {
        dec_str(n / 10).push(digit_char(n % 10))
    }
}

/// Hours component of a span given in whole seconds.
pub open spec fn spec_hours(total_secs: u64) -> u64 {
    total_secs / 3600
}

/// Minutes left over once whole hours are taken out.
pub open spec fn spec_subhour_min(total_secs: u64) -> u64 {
    total_secs % 3600 / 60
}

/// Seconds left over once whole minutes are taken out.
pub open spec fn spec_submin_sec(total_secs: u64) -> u64 {
    total_secs % 60
}

/// Whether the formatted text shows an hour component.
pub open spec fn shows_hours(total_secs: u64) -> bool {
    total_secs >= 3600
}

/// Whether the formatted text shows a minute component.
pub open spec fn shows_minutes(total_secs: u64) -> bool {
    total_secs >= 60 && spec_subhour_min(total_secs) > 0
}

/// Whether the formatted text shows a second component: always for spans
/// under a minute, and otherwise exactly when the second remainder is
/// non-zero, so that an exact larger unit stands alone.
pub open spec fn shows_seconds(total_secs: u64) -> bool {
    spec_submin_sec(total_secs) > 0 || total_secs < 60
}

/// The text that writes the components `h`, `m` and `sec`, each with its
/// unit letter, keeping only the components whose flag is set.
pub open spec fn opt_triple_text(sh: bool, sm: bool, ss: bool, h: u64, m: u64, sec: u64) -> Seq<
    char,
> {
    (if sh {
        dec_str(h as nat) + seq!['h']
    } else {
        Seq::<char>::empty()
    }) + (if sm {
        dec_str(m as nat) + seq!['m']
    } else {
        Seq::<char>::empty()
    }) + (if ss {
        dec_str(sec as nat) + seq!['s']
    } else {
        Seq::<char>::empty()
    })
}

/// The text that writes each non-zero member of the triple `(h, m, sec)`
/// with its unit letter, in the `h`, `m`, `s` order.
pub open spec fn triple_text(h: u64, m: u64, sec: u64) -> Seq<char> {
    opt_triple_text(h > 0, m > 0, sec > 0, h, m, sec)
}

/// The compact rendering of a span given in whole seconds.
pub open spec fn spec_format(total_secs: u64) -> Seq<char> {
    opt_triple_text(
        shows_hours(total_secs),
        shows_minutes(total_secs),
        shows_seconds(total_secs),
        spec_hours(total_secs),
        spec_subhour_min(total_secs),
        spec_submin_sec(total_secs),
    )
}

/// The one-character string for a digit value.
fn digit_str(d: u64) -> (r: &'static str)
    requires
        d < 10,
    ensures
        r@ == seq![digit_char(d as nat)],
{
    proof {
        reveal_strlit("0");
        reveal_strlit("1");
        reveal_strlit("2");
        reveal_strlit("3");
        reveal_strlit("4");
        reveal_strlit("5");
        reveal_strlit("6");
        reveal_strlit("7");
        reveal_strlit("8");
        reveal_strlit("9");
    }
    let r = match d {
        0 => "0",
        1 => "1",
        2 => "2",
        3 => "3",
        4 => "4",
        5 => "5",
        6 => "6",
        7 => "7",
        8 => "8",
        _ => "9",
    };
    proof {
        assert(r@ =~= seq![digit_char(d as nat)]);
    }
    r
}

/// Appends the decimal rendering of `n` to `out`.
fn push_dec(out: &mut String, n: u64)
    ensures
        final(out)@ == old(out)@ + dec_str(n as nat),
    decreases n,
{
    if n < 10 {
        out.append(digit_str(n));
    } else {
        push_dec(out, n / 10);
        out.append(digit_str(n % 10));
        proof {
            assert(old(out)@ + dec_str((n / 10) as nat) + seq![digit_char((n % 10) as nat)]
                =~= old(out)@ + dec_str(n as nat));
        }
    }
}

/// Whole hours in a span of whole seconds.
pub fn as_hours(total_secs: u64) -> (r: u64)
    ensures
        r == spec_hours(total_secs),
{
    total_secs / 3600
}

/// Minutes left over once whole hours are taken out.
pub fn subhour_min(total_secs: u64) -> (r: u64)
    ensures
        r == spec_subhour_min(total_secs),
{
    total_secs % 3600 / 60
}

/// Seconds left over once whole minutes are taken out.
pub fn submin_sec(total_secs: u64) -> (r: u64)
    ensures
        r == spec_submin_sec(total_secs),
{
    total_secs % 60
}

/// A span broken into the components that its compact rendering shows: each
/// of the hour, minute and second fields is present exactly when the
/// rendering writes it.
pub struct IsoDuration {
    pub h: Option<u64>,
    pub m: Option<u64>,
    pub s: Option<u64>,
}

/// The text that an `IsoDuration` renders to: each present component as its
/// decimal digits followed by its unit letter.
pub open spec fn iso_text(d: IsoDuration) -> Seq<char> {
    (match d.h {
        Some(h) => dec_str(h as nat) + seq!['h'],
        None => Seq::<char>::empty(),
    }) + (match d.m {
        Some(m) => dec_str(m as nat) + seq!['m'],
        None => Seq::<char>::empty(),
    }) + (match d.s {
        Some(s) => dec_str(s as nat) + seq!['s'],
        None => Seq::<char>::empty(),
    })
}

impl IsoDuration {
    /// Breaks a span of whole seconds into the components its compact
    /// rendering shows, so that `iso_text` of the result is exactly
    /// `spec_format` of the span.
    pub fn from_secs(total_secs: u64) -> (r: IsoDuration)
        ensures
            r.h == if shows_hours(total_secs) {
                Some(spec_hours(total_secs))
            } else {
                None::<u64>
            },
            r.m == if shows_minutes(total_secs) {
                Some(spec_subhour_min(total_secs))
            } else {
                None::<u64>
            },
            r.s == if shows_seconds(total_secs) {
                Some(spec_submin_sec(total_secs))
            } else {
                None::<u64>
            },
            iso_text(r) == spec_format(total_secs),
    {
        let hour = as_hours(total_secs);
        let minute = subhour_min(total_secs);
        let second = submin_sec(total_secs);
        let show_hour = total_secs >= 3600;
        let show_min = total_secs >= 60 && minute > 0;
        let show_sec = second > 0 || total_secs < 60;
        IsoDuration {
            h: if show_hour {
                Some(hour)
            } else {
                None
            },
            m: if show_min {
                Some(minute)
            } else {
                None
            },
            s: if show_sec {
                Some(second)
            } else {
                None
            },
        }
    }

    /// Renders the components as text.
    pub fn to_text(&self) -> (r: String)
        ensures
            r@ == iso_text(*self),
    {
        proof {
            reveal_strlit("h");
            reveal_strlit("m");
            reveal_strlit("s");
        }
        let mut out = String::new();
        if let Some(h) = self.h {
            push_dec(&mut out, h);
            out.append("h");
        }
        if let Some(m) = self.m {
            push_dec(&mut out, m);
            out.append("m");
        }
        if let Some(s) = self.s {
            push_dec(&mut out, s);
            out.append("s");
        }
        proof {
            assert(out@ =~= iso_text(*self));
        }
        out
    }
}

/// Formats a span of whole seconds in the compact form.
pub fn format(total_secs: u64) -> (r: String)
    ensures
        r@ == spec_format(total_secs),
{
    IsoDuration::from_secs(total_secs).to_text()
}

proof fn lemma_digit_char(d: nat)
    requires
        d < 10,
    ensures
        is_digit_char(digit_char(d)),
        digit_val(digit_char(d)) == d,
        !is_unit_char(digit_char(d)),
{
}

/// A decimal rendering is a non-empty string of digits, holds no unit
/// letter, and reads back as the value it was made from.
pub proof fn lemma_dec_str(n: nat)
    ensures
        dec_str(n).len() >= 1,
        all_digits(dec_str(n)),
        dec_val(dec_str(n)) == n,
        forall|k: int| 0 <= k < dec_str(n).len() ==> !is_unit_char(dec_str(n)[k]),
    decreases n,
{
    if n < 10 {
        lemma_digit_char(n);
        assert(dec_str(n).drop_last() =~= Seq::<char>::empty());
        assert(dec_val(Seq::<char>::empty()) == 0);
        assert(dec_str(n).last() == digit_char(n));
    } else {
        lemma_dec_str(n / 10);
        lemma_digit_char(n % 10);
        lemma_dec_val_push(dec_str(n / 10), digit_char(n % 10));
        vstd::arithmetic::div_mod::lemma_fundamental_div_mod(n as int, 10);
    }
}

/// `unit_scan` reports the position of a unit letter that no unit letter
/// precedes.
proof fn lemma_unit_scan_finds(s: Seq<char>, pos: int, p: int)
    requires
        0 <= pos <= p < s.len(),
        forall|k: int| pos <= k < p ==> !is_unit_char(s[k]),
        is_unit_char(s[p]),
    ensures
        unit_scan(s, pos) == p,
    decreases p - pos,
{
    if pos < p {
        lemma_unit_scan_finds(s, pos + 1, p);
    }
}

/// Reading one component: where the text at `pos` starts with the digits of
/// `v` followed by a unit letter of rank `r` that the grammar still allows,
/// the component contributes `v` times its unit's weight, and parsing goes
/// on after the unit letter with only smaller units allowed.
proof fn lemma_parse_component(s: Seq<char>, pos: int, min_rank: int, v: u64, r: int)
    requires
        0 <= pos,
        0 <= min_rank <= r <= 2,
        pos + dec_str(v as nat).len() < s.len(),
        s.subrange(pos, pos + dec_str(v as nat).len() as int) == dec_str(v as nat),
        unit_rank(s[pos + dec_str(v as nat).len()]) == r,
    ensures
        parse_components(s, pos, min_rank) == (match parse_components(
            s,
            pos + dec_str(v as nat).len() + 1,
            r + 1,
        ) {
            Ok(rest) => Ok::<nat, ParseError>((v * unit_weight(r) + rest) as nat),
            Err(e) => Err::<nat, ParseError>(e),
        }),
{
    let k = dec_str(v as nat).len() as int;
    lemma_dec_str(v as nat);
    assert(forall|i: int| pos <= i < pos + k ==> s[i] == dec_str(v as nat)[i - pos]);
    lemma_unit_scan_finds(s, pos, pos + k);
    assert(all_digits(s.subrange(pos, pos + k)));
    assert(dec_val(s.subrange(pos, pos + k)) == v as nat);
}

/// Parsing the tail that holds at most a seconds component.
proof fn lemma_parse_s_suffix(s: Seq<char>, pos: int, min_rank: int, ss: bool, sec: u64)
    requires
        0 <= pos <= s.len(),
        0 <= min_rank <= 2,
        s.subrange(pos, s.len() as int) == (if ss {
            dec_str(sec as nat) + seq!['s']
        } else {
            Seq::<char>::empty()
        }),
    ensures
        parse_components(s, pos, min_rank) == Ok::<nat, ParseError>(
            if ss {
                sec as nat
            } else {
                0
            },
        ),
{
    let tail = s.subrange(pos, s.len() as int);
    assert(tail.len() == s.len() - pos);
    if ss {
        let a = dec_str(sec as nat);
        let k = a.len() as int;
        lemma_dec_str(sec as nat);
        assert(tail.len() == (a + seq!['s']).len());
        assert(s.len() == pos + k + 1);
        assert forall|i: int| 0 <= i < k implies s[pos + i] == a[i] by {
            assert(tail[i] == (a + seq!['s'])[i]);
            assert((a + seq!['s'])[i] == a[i]);
        }
        assert(s.subrange(pos, pos + k) =~= a);
        assert(tail[k] == (a + seq!['s'])[k]);
        assert(s[pos + k] == 's');
        lemma_parse_component(s, pos, min_rank, sec, 2);
    } else {
        assert(tail.len() == 0);
        assert(s.len() == pos);
    }
}

/// Parsing the tail that holds at most a minutes and a seconds component.
proof fn lemma_parse_ms_suffix(
    s: Seq<char>,
    pos: int,
    min_rank: int,
    sm: bool,
    ss: bool,
    m: u64,
    sec: u64,
)
    requires
        0 <= pos <= s.len(),
        0 <= min_rank <= 1,
        s.subrange(pos, s.len() as int) == (if sm {
            dec_str(m as nat) + seq!['m']
        } else {
            Seq::<char>::empty()
        }) + (if ss {
            dec_str(sec as nat) + seq!['s']
        } else {
            Seq::<char>::empty()
        }),
    ensures
        parse_components(s, pos, min_rank) == Ok::<nat, ParseError>(
            ((if sm {
                m as nat * 60
            } else {
                0
            }) + (if ss {
                sec as nat
            } else {
                0
            })) as nat,
        ),
{
    let tail = s.subrange(pos, s.len() as int);
    assert(tail.len() == s.len() - pos);
    let bpart = (if ss {
        dec_str(sec as nat) + seq!['s']
    } else {
        Seq::<char>::empty()
    });
    if sm {
        let a = dec_str(m as nat);
        let k = a.len() as int;
        lemma_dec_str(m as nat);
        let apart = a + seq!['m'];
        assert(tail.len() == (apart + bpart).len());
        assert(s.len() == pos + k + 1 + bpart.len());
        assert forall|i: int| 0 <= i < k implies s[pos + i] == a[i] by {
            assert(tail[i] == (apart + bpart)[i]);
            assert((apart + bpart)[i] == apart[i]);
            assert(apart[i] == a[i]);
        }
        assert(s.subrange(pos, pos + k) =~= a);
        assert(tail[k] == (apart + bpart)[k]);
        assert((apart + bpart)[k] == apart[k]);
        assert(s[pos + k] == 'm');
        assert forall|i: int| 0 <= i < bpart.len() implies s.subrange(
            pos + k + 1,
            s.len() as int,
        )[i] == bpart[i] by {
            assert(s.subrange(pos + k + 1, s.len() as int)[i] == s[pos + k + 1 + i]);
            assert(s[pos + k + 1 + i] == tail[k + 1 + i]);
            assert(tail[k + 1 + i] == (apart + bpart)[k + 1 + i]);
            assert((apart + bpart)[k + 1 + i] == bpart[i]);
        }
        assert(s.subrange(pos + k + 1, s.len() as int) =~= bpart);
        lemma_parse_component(s, pos, min_rank, m, 1);
        lemma_parse_s_suffix(s, pos + k + 1, 2, ss, sec);
    } else {
        assert(Seq::<char>::empty() + bpart =~= bpart);
        lemma_parse_s_suffix(s, pos, min_rank, ss, sec);
    }
}

/// Parsing any text made of up to three components written in order.
proof fn lemma_parse_opt_triple(sh: bool, sm: bool, ss: bool, h: u64, m: u64, sec: u64)
    requires
        sh || sm || ss,
        (if sh {
            h as nat * 3600
        } else {
            0
        }) + (if sm {
            m as nat * 60
        } else {
            0
        }) + (if ss {
            sec as nat
        } else {
            0
        }) <= u64::MAX,
    ensures
        spec_parse(opt_triple_text(sh, sm, ss, h, m, sec)) == Ok::<u64, ParseError>(
            (((if sh {
                h as nat * 3600
            } else {
                0
            }) + (if sm {
                m as nat * 60
            } else {
                0
            }) + (if ss {
                sec as nat
            } else {
                0
            })) as u64),
        ),
{
    let s = opt_triple_text(sh, sm, ss, h, m, sec);
    lemma_dec_str(h as nat);
    lemma_dec_str(m as nat);
    lemma_dec_str(sec as nat);
    let hpart = (if sh {
        dec_str(h as nat) + seq!['h']
    } else {
        Seq::<char>::empty()
    });
    let mpart = (if sm {
        dec_str(m as nat) + seq!['m']
    } else {
        Seq::<char>::empty()
    });
    let spart = (if ss {
        dec_str(sec as nat) + seq!['s']
    } else {
        Seq::<char>::empty()
    });
    assert(s == hpart + mpart + spart);
    if sh {
        let a = dec_str(h as nat);
        let k = a.len() as int;
        assert(s.len() == k + 1 + mpart.len() + spart.len());
        assert forall|i: int| 0 <= i < k implies s[i] == a[i] by {
            assert(s[i] == ((hpart + mpart) + spart)[i]);
            assert(((hpart + mpart) + spart)[i] == (hpart + mpart)[i]);
            assert((hpart + mpart)[i] == hpart[i]);
            assert(hpart[i] == a[i]);
        }
        assert(s.subrange(0, k) =~= a);
        assert(s[k] == ((hpart + mpart) + spart)[k]);
        assert(((hpart + mpart) + spart)[k] == (hpart + mpart)[k]);
        assert((hpart + mpart)[k] == hpart[k]);
        assert(s[k] == 'h');
        assert forall|i: int| 0 <= i < mpart.len() + spart.len() implies s.subrange(
            k + 1,
            s.len() as int,
        )[i] == (mpart + spart)[i] by {
            assert(s.subrange(k + 1, s.len() as int)[i] == s[k + 1 + i]);
            assert(s[k + 1 + i] == ((hpart + mpart) + spart)[k + 1 + i]);
            if i < mpart.len() {
                assert(((hpart + mpart) + spart)[k + 1 + i] == (hpart + mpart)[k + 1 + i]);
                assert((hpart + mpart)[k + 1 + i] == mpart[i]);
                assert((mpart + spart)[i] == mpart[i]);
            } else {
                assert(((hpart + mpart) + spart)[k + 1 + i] == spart[i - mpart.len()]);
                assert((mpart + spart)[i] == spart[i - mpart.len()]);
            }
        }
        assert(s.subrange(k + 1, s.len() as int) =~= mpart + spart);
        lemma_parse_component(s, 0, 0, h, 0);
        lemma_parse_ms_suffix(s, k + 1, 1, sm, ss, m, sec);
    } else {
        assert(hpart.len() == 0);
        assert((hpart + mpart) + spart =~= mpart + spart);
        assert(s.subrange(0, s.len() as int) =~= mpart + spart);
        lemma_parse_ms_suffix(s, 0, 0, sm, ss, m, sec);
    }
}

/// Round trip from a component triple: the text that writes the non-zero
/// members of `(h, m, sec)` parses back to `h * 3600 + m * 60 + sec`
/// seconds, for every triple with at least one non-zero member whose total
/// fits in 64 bits.
pub proof fn lemma_parse_triple(h: u64, m: u64, sec: u64)
    requires
        h + m + sec > 0,
        h * 3600 + m * 60 + sec <= u64::MAX,
    ensures
        spec_parse(triple_text(h, m, sec)) == Ok::<u64, ParseError>(
            (h * 3600 + m * 60 + sec) as u64,
        ),
{
    lemma_parse_opt_triple(h > 0, m > 0, sec > 0, h, m, sec);
}

/// The rendering always shows at least one unit: it is never empty.
pub proof fn lemma_format_nonempty(total_secs: u64)
    ensures
        spec_format(total_secs).len() > 0,
{
    lemma_dec_str(spec_hours(total_secs) as nat);
    lemma_dec_str(spec_subhour_min(total_secs) as nat);
    lemma_dec_str(spec_submin_sec(total_secs) as nat);
}

/// Round trip through formatting: the compact rendering of any span parses
/// back to the same number of seconds. Formatting is therefore idempotent:
/// re-parsing and re-formatting a rendering gives the rendering itself.
pub proof fn lemma_parse_format(total_secs: u64)
    ensures
        spec_parse(spec_format(total_secs)) == Ok::<u64, ParseError>(total_secs),
{
    let n = total_secs;
    let h = spec_hours(n);
    let m = spec_subhour_min(n);
    let sec = spec_submin_sec(n);
    vstd::arithmetic::div_mod::lemma_fundamental_div_mod(n as int, 3600);
    vstd::arithmetic::div_mod::lemma_fundamental_div_mod((n as int) % 3600, 60);
    assert((n as int) % 60 == ((n as int) % 3600) % 60) by (nonlinear_arith);
    assert(h * 3600 + m * 60 + sec == n);
    lemma_parse_opt_triple(shows_hours(n), shows_minutes(n), shows_seconds(n), h, m, sec);
    if !shows_hours(n) {
        assert(h == 0);
    }
    if !shows_minutes(n) {
        assert(m as nat * 60 == 0);
    }
    if !shows_seconds(n) {
        assert(sec == 0);
    }
}

} // verus!
