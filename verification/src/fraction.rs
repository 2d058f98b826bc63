//! Which JSON texts hold a number whose fraction the parser cannot take.
//!
//! The parser of the `json` crate keeps a number as a mantissa of 64 bits and
//! a decimal exponent of 16 bits. Reading the digits behind the point, it
//! takes each digit into the mantissa as long as the mantissa still fits, and
//! lowers the exponent by one for each digit taken, without looking whether
//! the exponent can go lower. A number that starts with `0.` and goes on with
//! tens of thousands of zeros takes the exponent below its range.
//!
//! The scan here walks a text once, keeps apart what stands inside a string
//! from what stands outside, follows mantissa and exponent through the digits
//! of each number outside a string as the parser does, and says whether any
//! fraction would take the exponent too low.
//!
//! The scan knows no grammar: it cannot tell whether the parser would come
//! as far as such a fraction or refuse something before it. The parser can:
//! it reads from left to right, so the start of the text that ends before
//! the first digit too many is within its reach, and what it makes of that
//! start tells how far it would come in the whole.

use vstd::prelude::*;
use crate::text::{digit_value, is_digit};

verus! {

/// The lowest exponent that the parser can hold.
pub const LOWEST_EXPONENT: i32 = -32_768;

/// The highest exponent that the parser can hold.
pub const HIGHEST_EXPONENT: i32 = 32_767;

/// Where a scan stands in a text.
#[derive(Debug, Clone, Copy, PartialEq, Eq)]
pub enum Place {
    /// Outside any string, and not in a number's digits.
    Between,
    /// Inside a string.
    Text,
    /// Inside a string, right behind a backslash.
    Escape,
    /// In the digits of a number before any point.
    Whole,
    /// Behind the point of a number.
    Fraction,
}

/// What a scan knows after the characters it has read.
#[derive(Debug, Clone, Copy, PartialEq, Eq)]
pub struct Scan {
    /// Where the scan stands.
    pub place: Place,
    /// The mantissa of the number that the scan is in: the digits taken so
    /// far.
    pub mantissa: u64,
    /// The exponent of the number that the scan is in: raised by one for each
    /// digit before the point that the mantissa could not take, lowered by one
    /// for each digit behind the point that it took.
    pub exponent: i32,
    /// Whether some fraction read so far would have taken the exponent below
    /// `LOWEST_EXPONENT`.
    pub too_low: bool,
}

/// Whether a mantissa can take one more digit and still fit in 64 bits.
pub open spec fn takes(mantissa: u64, c: char) -> bool {
    mantissa * 10 + digit_value(c) <= u64::MAX
}

/// The mantissa with one more digit.
pub open spec fn with_digit(mantissa: u64, c: char) -> u64 {
    (mantissa * 10 + digit_value(c)) as u64
}

/// A scan that has read nothing.
pub open spec fn scan_start() -> Scan {
    Scan { place: Place::Between, mantissa: 0, exponent: 0, too_low: false }
}

/// The scan after one more digit outside a string.
pub open spec fn scan_digit(scan: Scan, c: char) -> Scan {
    match scan.place {
        Place::Whole => if takes(scan.mantissa, c) {
            Scan { mantissa: with_digit(scan.mantissa, c), ..scan }
        } else if scan.exponent < HIGHEST_EXPONENT {
            Scan { exponent: (scan.exponent + 1) as i32, ..scan }
        } else {
            scan
        },
        Place::Fraction => if !takes(scan.mantissa, c) {
            scan
        } else if scan.exponent > LOWEST_EXPONENT {
            Scan {
                mantissa: with_digit(scan.mantissa, c),
                exponent: (scan.exponent - 1) as i32,
                ..scan
            }
        } else {
            Scan { too_low: true, ..scan }
        },
        _ => Scan {
            place: Place::Whole,
            mantissa: digit_value(c) as u64,
            exponent: 0,
            too_low: scan.too_low,
        },
    }
}

/// The scan after one more character.
///
/// Inside a string a quotation mark ends the string, unless a backslash
/// stands before it; nothing else counts there. Outside, a quotation mark
/// starts a string, a digit starts or continues a number, a point behind
/// digits starts the fraction, and any other character ends the number.
pub open spec fn scan_step(scan: Scan, c: char) -> Scan {
    match scan.place {
        Place::Text => if c == '\\' {
            Scan { place: Place::Escape, ..scan }
        } else if c == '"' {
            Scan { place: Place::Between, ..scan }
        } else {
            scan
        },
        Place::Escape => Scan { place: Place::Text, ..scan },
        _ => if c == '"' {
            Scan { place: Place::Text, ..scan }
        } else if is_digit(c) {
            scan_digit(scan, c)
        } else if c == '.' && scan.place == Place::Whole {
            Scan { place: Place::Fraction, ..scan }
        } else {
            Scan { place: Place::Between, ..scan }
        },
    }
}

/// The scan after all of `s`.
pub open spec fn scan_of(s: Seq<char>) -> Scan
    decreases s.len(),
{
    if s.len() == 0 {
        scan_start()
    } else {
        scan_step(scan_of(s.drop_last()), s.last())
    }
}

/// Whether `s` holds, outside any string, a number whose fraction would take
/// the parser's exponent below `LOWEST_EXPONENT`.
pub open spec fn has_overlong_fraction(s: Seq<char>) -> bool {
    scan_of(s).too_low
}

/// A fraction lowers the exponent by one for a character at most, so it takes
/// more than 32768 characters to take it too low.
pub proof fn lemma_short_text_is_within_reach(s: Seq<char>)
    ensures
        scan_of(s).exponent >= -s.len(),
        s.len() <= 32_768 ==> !has_overlong_fraction(s),
    decreases s.len(),
{
    if s.len() > 0 {
        lemma_short_text_is_within_reach(s.drop_last());
    }
}

/// Only a fraction can take the exponent too low, and a fraction needs a
/// point: a text without one is within reach.
pub proof fn lemma_text_without_point_is_within_reach(s: Seq<char>)
    requires
        forall|i: int| 0 <= i < s.len() ==> #[trigger] s[i] != '.',
    ensures
        scan_of(s).place != Place::Fraction,
        !has_overlong_fraction(s),
    decreases s.len(),
{
    if s.len() > 0 {
        lemma_text_without_point_is_within_reach(s.drop_last());
    }
}

/// Once a fraction has taken the exponent too low, what follows does not undo
/// it.
pub proof fn lemma_overlong_fraction_stays(s: Seq<char>, c: char)
    requires
        has_overlong_fraction(s),
    ensures
        has_overlong_fraction(s.push(c)),
{
    assert(s.push(c).drop_last() =~= s);
}

/// The longest start of `s` that holds no number whose fraction would take
/// the exponent too low: all of `s`, or what stands before the first digit
/// that would.
pub open spec fn within_reach_prefix(s: Seq<char>) -> Seq<char>
    decreases s.len(),
{
    if s.len() == 0 || !has_overlong_fraction(s) {
        s
    } else {
        within_reach_prefix(s.drop_last())
    }
}

/// The prefix is a start of the text and within reach; it is the whole text
/// exactly where the text is within reach.
pub proof fn lemma_within_reach_prefix(s: Seq<char>)
    ensures
        within_reach_prefix(s).len() <= s.len(),
        within_reach_prefix(s) == s.take(within_reach_prefix(s).len() as int),
        !has_overlong_fraction(within_reach_prefix(s)),
        within_reach_prefix(s) == s <==> !has_overlong_fraction(s),
    decreases s.len(),
{
    if s.len() == 0 || !has_overlong_fraction(s) {
        assert(s.take(s.len() as int) =~= s);
    } else {
        let rest = s.drop_last();
        lemma_within_reach_prefix(rest);
        assert(rest.take(within_reach_prefix(rest).len() as int) =~= s.take(
            within_reach_prefix(rest).len() as int,
        ));
    }
}

/// Where the digit at `first` is the first to take the exponent too low, the
/// prefix within reach of any longer start of the text ends before it.
proof fn lemma_prefix_before_first_overlong(s: Seq<char>, first: int, upto: int)
    requires
        0 <= first < upto <= s.len(),
        !has_overlong_fraction(s.take(first)),
        has_overlong_fraction(s.take(first + 1)),
    ensures
        has_overlong_fraction(s.take(upto)),
        within_reach_prefix(s.take(upto)) == s.take(first),
    decreases upto - first,
{
    assert(s.take(upto).drop_last() =~= s.take(upto - 1));
    if upto > first + 1 {
        lemma_prefix_before_first_overlong(s, first, upto - 1);
        lemma_overlong_fraction_stays(s.take(upto - 1), s[upto - 1]);
        assert(s.take(upto - 1).push(s[upto - 1]) =~= s.take(upto));
    } else {
        assert(within_reach_prefix(s.take(first)) == s.take(first));
    }
    assert(within_reach_prefix(s.take(upto)) == within_reach_prefix(s.take(upto - 1)));
}

/// Takes one more digit outside a string into the scan.
fn read_digit(scan: Scan, c: char) -> (next: Scan)
    requires
        is_digit(c),
    ensures
        next == scan_digit(scan, c),
{
    let digit: u64 = (c as u32 - 48) as u64;
    let takes = scan.mantissa <= (u64::MAX - digit) / 10;
    match scan.place {
        Place::Whole => {
            if takes {
                Scan { mantissa: scan.mantissa * 10 + digit, ..scan }
            } else if scan.exponent < HIGHEST_EXPONENT {
                Scan { exponent: scan.exponent + 1, ..scan }
            } else {
                scan
            }
        },
        Place::Fraction => {
            if !takes {
                scan
            } else if scan.exponent > LOWEST_EXPONENT {
                Scan { mantissa: scan.mantissa * 10 + digit, exponent: scan.exponent - 1, ..scan }
            } else {
                Scan { too_low: true, ..scan }
            }
        },
        _ => Scan { place: Place::Whole, mantissa: digit, exponent: 0, too_low: scan.too_low },
    }
}

/// Takes one more character into the scan.
pub fn read_char(scan: Scan, c: char) -> (next: Scan)
    ensures
        next == scan_step(scan, c),
{
    match scan.place {
        Place::Text => {
            if c == '\\' {
                Scan { place: Place::Escape, ..scan }
            } else if c == '"' {
                Scan { place: Place::Between, ..scan }
            } else {
                scan
            }
        },
        Place::Escape => Scan { place: Place::Text, ..scan },
        place => {
            if c == '"' {
                Scan { place: Place::Text, ..scan }
            } else if c >= '0' && c <= '9' {
                read_digit(scan, c)
            } else if c == '.' && matches!(place, Place::Whole) {
                Scan { place: Place::Fraction, ..scan }
            } else {
                Scan { place: Place::Between, ..scan }
            }
        },
    }
}

/// Tells whether `text` holds, outside any string, a number whose fraction
/// would take the parser's exponent below `LOWEST_EXPONENT`.
pub fn exceeds_fraction_reach(text: &str) -> (found: bool)
    ensures
        found == has_overlong_fraction(text@),
{
    let ghost s = text@;
    let mut scan = Scan { place: Place::Between, mantissa: 0, exponent: 0, too_low: false };
    for c in it: text.chars()
        invariant
            it.seq() == s,
            scan == scan_of(s.take(it.index() as int)),
    {
        assert(s.take(it.index() + 1).drop_last() =~= s.take(it.index() as int));
        scan = read_char(scan, c);
    }
    assert(s.take(s.len() as int) =~= s);
    scan.too_low
}

/// The part of `text` that the parser can be handed: all of it, or what
/// stands before the first digit that would take the exponent too low.
pub fn reach_prefix(text: &str) -> (prefix: &str)
    ensures
        prefix@ == within_reach_prefix(text@),
{
    let ghost s = text@;
    let length = text.unicode_len();
    let mut scan = Scan { place: Place::Between, mantissa: 0, exponent: 0, too_low: false };
    let mut taken: usize = 0;
    for c in it: text.chars()
        invariant
            s == text@,
            it.seq() == s,
            length == s.len(),
            taken == it.index(),
            scan == scan_of(s.take(taken as int)),
            !scan.too_low,
    {
        assert(s.take(taken + 1).drop_last() =~= s.take(taken as int));
        scan = read_char(scan, c);
        if scan.too_low {
            proof {
                lemma_prefix_before_first_overlong(s, taken as int, s.len() as int);
                assert(s.take(s.len() as int) =~= s);
                assert(s.subrange(0, taken as int) =~= s.take(taken as int));
            }
            return text.substring_char(0, taken);
        }
        taken = taken + 1;
    }
    assert(s.take(s.len() as int) =~= s);
    text
}

} // verus!
