//! The number of a data point, held as the decimal text that goes on the wire.

use vstd::prelude::*;
use crate::escape::{escape, is_plain, lemma_escape_plain};
use crate::text::{all_digits, decimal_digits, is_digit, lemma_decimal_digits_shape, push_char, push_decimal};

verus! {

/// Whether `s` is a decimal numeral without sign: one or more digits, then
/// possibly a point and one or more digits.
pub open spec fn is_unsigned_decimal(s: Seq<char>) -> bool {
    ||| s.len() > 0 && all_digits(s)
    ||| exists|k: int|
        0 < k < s.len() - 1 && #[trigger] s[k] == '.' && all_digits(s.take(k)) && all_digits(
            s.skip(k + 1),
        )
}

/// Whether `s` is a decimal numeral: an unsigned one, possibly behind a minus
/// sign.
pub open spec fn is_decimal(s: Seq<char>) -> bool {
    ||| is_unsigned_decimal(s)
    ||| s.len() > 0 && s[0] == '-' && is_unsigned_decimal(s.skip(1))
}

/// The decimal numeral of the integer `n`.
pub open spec fn integer_text(n: int) -> Seq<char> {
    if n < 0 {
        seq!['-'] + decimal_digits((-n) as nat)
    } else {
        decimal_digits(n as nat)
    }
}

/// A decimal numeral holds digits, at most one point and at most one minus
/// sign, so it is written into a JSON string unchanged.
pub proof fn lemma_decimal_needs_no_escape(s: Seq<char>)
    requires
        is_decimal(s),
    ensures
        escape(s) == s,
{
    assert forall|i: int| 0 <= i < s.len() implies is_plain(#[trigger] s[i]) by {
        lemma_decimal_char(s, i);
    }
    lemma_escape_plain(s);
}

/// Every character of a decimal numeral is a digit, a point or a minus sign.
pub proof fn lemma_decimal_char(s: Seq<char>, i: int)
    requires
        is_decimal(s),
        0 <= i < s.len(),
    ensures
        is_digit(s[i]) || s[i] == '.' || s[i] == '-',
{
    let body = if is_unsigned_decimal(s) {
        s
    } else {
        s.skip(1)
    };
    let start = s.len() - body.len();
    if i >= start {
        let j = i - start;
        assert(body[j] == s[i]);
        if !(body.len() > 0 && all_digits(body)) {
            let k = choose|k: int|
                0 < k < body.len() - 1 && #[trigger] body[k] == '.' && all_digits(body.take(k))
                    && all_digits(body.skip(k + 1));
            if j < k {
                assert(body.take(k)[j] == body[j]);
            } else if j > k {
                assert(body.skip(k + 1)[j - k - 1] == body[j]);
            }
        }
    }
}

/// The numeral of an integer is a decimal numeral.
pub proof fn lemma_integer_text_is_decimal(n: int)
    ensures
        is_decimal(integer_text(n)),
{
    if n < 0 {
        lemma_decimal_digits_shape((-n) as nat);
    } else {
        lemma_decimal_digits_shape(n as nat);
    }
}

/// A number as it is sent: a decimal numeral.
#[derive(Debug, PartialEq, Eq)]
pub struct Decimal {
    text: String,
}

impl View for Decimal {
    type V = Seq<char>;

    closed spec fn view(&self) -> Seq<char> {
        self.text@
    }
}

impl Clone for Decimal {
    fn clone(&self) -> (copy: Self)
        ensures
            copy@ == self@,
    {
        proof {
            use_type_invariant(self);
        }
        Decimal { text: self.text.clone() }
    }
}

impl Decimal {
    #[verifier::type_invariant]
    spec fn well_formed(self) -> bool {
        is_decimal(self.text@)
    }

    /// Takes `text` as a number if it is a decimal numeral.
    pub fn parse(text: &str) -> (r: Option<Decimal>)
        ensures
            r is Some <==> is_decimal(text@),
            r matches Some(d) ==> d@ == text@,
    {
        if is_decimal_text(text) {
            Some(Decimal { text: String::from_str(text) })
        } else {
            None
        }
    }

    /// The numeral of the integer `n`.
    pub fn from_i64(n: i64) -> (r: Decimal)
        ensures
            r@ == integer_text(n as int),
    {
        let mut text = String::new();
        if n < 0 {
            push_char(&mut text, '-');
            let magnitude: u64 = (-(n + 1)) as u64 + 1;
            push_decimal(&mut text, magnitude);
        } else {
            push_decimal(&mut text, n as u64);
        }
        proof {
            lemma_integer_text_is_decimal(n as int);
        }
        Decimal { text }
    }

    /// The numeral.
    pub fn as_str(&self) -> (r: &str)
        ensures
            r@ == self@,
            is_decimal(r@),
    {
        proof {
            use_type_invariant(self);
        }
        self.text.as_str()
    }
}

/// Tells whether `text` is a decimal numeral.
pub fn is_decimal_text(text: &str) -> (r: bool)
    ensures
        r == is_decimal(text@),
{
    let ghost s = text@;
    let mut first = true;
    let mut negative = false;
    let mut whole = false;
    let mut point = false;
    let mut fraction = false;
    let mut ok = true;
    let ghost mut point_at: int = -1;
    for c in it: text.chars()
        invariant
            it.seq() == s,
            first == (it.index() == 0),
            negative == (it.index() > 0 && s[0] == '-'),
            point == (point_at >= 0),
            scanned(s, it.index() as int, point_at, ok, whole, fraction),
    {
        let ghost i = it.index() as int;
        if first && c == '-' {
            negative = true;
        } else if c == '.' && !point {
            point = true;
            proof {
                point_at = i;
            }
        } else if c >= '0' && c <= '9' {
            if point {
                fraction = true;
            } else {
                whole = true;
            }
        } else {
            ok = false;
        }
        first = false;
    }
    proof {
        lemma_scanned_verdict(s, point_at, ok, whole, fraction);
    }
    ok && whole && (!point || fraction)
}

/// Where the numeral proper starts in `s`, given that `upto` characters have
/// been read: behind a leading minus sign, if one was read.
spec fn body_start(s: Seq<char>, upto: int) -> int {
    if upto > 0 && s[0] == '-' {
        1
    } else {
        0
    }
}

/// What a scan of the first `upto` characters of `s` knows: where the first
/// point stands (`point_at`, negative if there is none), whether all the other
/// characters behind the sign are digits (`ok`), and, if so, whether digits
/// stand before the point (`whole`) and behind it (`fraction`).
spec fn scanned(
    s: Seq<char>,
    upto: int,
    point_at: int,
    ok: bool,
    whole: bool,
    fraction: bool,
) -> bool {
    let start = body_start(s, upto);
    &&& 0 <= upto <= s.len()
    &&& point_at < upto
    &&& point_at >= 0 ==> start <= point_at && s[point_at] == '.'
    &&& forall|j: int|
        start <= j < upto && (point_at < 0 || j < point_at) ==> #[trigger] s[j] != '.'
    &&& ok <==> forall|j: int| start <= j < upto && j != point_at ==> is_digit(#[trigger] s[j])
    &&& ok ==> (whole <==> (if point_at >= 0 {
        point_at
    } else {
        upto
    }) > start)
    &&& ok ==> (fraction <==> (point_at >= 0 && upto > point_at + 1))
}

/// A finished scan accepts exactly the decimal numerals.
proof fn lemma_scanned_verdict(
    s: Seq<char>,
    point_at: int,
    ok: bool,
    whole: bool,
    fraction: bool,
)
    requires
        scanned(s, s.len() as int, point_at, ok, whole, fraction),
    ensures
        (ok && whole && (point_at < 0 || fraction)) == is_decimal(s),
{
    let n = s.len() as int;
    let start = body_start(s, n);
    let body = s.skip(start);
    assert forall|j: int| 0 <= j < body.len() implies body[j] == s[j + start] by {}
    // A leading minus sign can only be the sign.
    if start == 1 && is_unsigned_decimal(s) && !all_digits(s) {
        let k = choose|k: int|
            0 < k < s.len() - 1 && #[trigger] s[k] == '.' && all_digits(s.take(k)) && all_digits(
                s.skip(k + 1),
            );
        assert(s.take(k)[0] == s[0]);
    }
    assert(is_decimal(s) == is_unsigned_decimal(body)) by {
        if start == 0 {
            assert(body =~= s);
        }
    }
    // What the numeral's shape says of each place carries over to the scan.
    if is_unsigned_decimal(body) {
        if body.len() > 0 && all_digits(body) {
            assert forall|j: int| start <= j < n implies is_digit(#[trigger] s[j]) by {
                assert(body[j - start] == s[j]);
            }
        } else {
            let k = choose|k: int|
                0 < k < body.len() - 1 && #[trigger] body[k] == '.' && all_digits(body.take(k))
                    && all_digits(body.skip(k + 1));
            assert forall|j: int| start <= j < k + start implies is_digit(#[trigger] s[j]) by {
                assert(body.take(k)[j - start] == s[j]);
            }
            assert forall|j: int| k + start < j < n implies is_digit(#[trigger] s[j]) by {
                assert(body.skip(k + 1)[j - start - k - 1] == s[j]);
            }
        }
    }
}

} // verus!
