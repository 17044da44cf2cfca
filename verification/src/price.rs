//! The price of a listing: the text shown, and the currency symbol.
//!
//! The text is a decimal numeral with a single decimal point, so that the
//! number it denotes can always be read back from it.

use vstd::prelude::*;
use crate::text::{chars_of, is_white_space, same_text, trim, trimmed};

verus! {

/// The currency symbol that prices are expected to carry.
pub const EXPECTED_CURRENCY: &'static str = "€";

/// A price as a listing shows it.
#[derive(Debug, Clone, PartialEq, Eq)]
pub struct Price {
    /// The whole part, a decimal point and the fraction part.
    pub text: String,
    /// The currency symbol, as found.
    pub currency: String,
}

/// What a price is made of, as plain character sequences.
pub struct PriceView {
    pub text: Seq<char>,
    pub currency: Seq<char>,
}

impl View for Price {
    type V = PriceView;

    open spec fn view(&self) -> PriceView {
        PriceView { text: self.text@, currency: self.currency@ }
    }
}

/// Why a price could not be parsed.
#[derive(Debug, Clone, Copy, PartialEq, Eq)]
pub enum PriceError {
    /// The text made of the whole and fraction parts is no decimal numeral.
    NotDecimal,
}

/// Whether `c` is one of the digits `0` to `9`.
pub open spec fn is_digit(c: char) -> bool {
    '0' <= c <= '9'
}

/// Whether `c` is a plus or a minus sign.
pub open spec fn is_sign(c: char) -> bool {
    c == '+' || c == '-'
}

/// The number of digits that `s` starts with.
pub open spec fn digit_run(s: Seq<char>) -> nat
    decreases s.len(),
{
    if s.len() > 0 && is_digit(s[0]) {
        1 + digit_run(s.drop_first())
    } else {
        0
    }
}

/// An exponent: `e` or `E`, an optional sign, and one digit or more.
pub open spec fn is_exponent(s: Seq<char>) -> bool {
    &&& s.len() >= 2
    &&& s[0] == 'e' || s[0] == 'E'
    &&& {
        let digits = if is_sign(s[1]) {
            s.skip(2)
        } else {
            s.skip(1)
        };
        digits.len() > 0 && digit_run(digits) == digits.len()
    }
}

/// Whether `t` is a decimal numeral with a single decimal point: an optional
/// sign, digits, the point, digits, and an optional exponent, with a digit on
/// at least one side of the point and nothing else before or after.
pub open spec fn is_decimal(t: Seq<char>) -> bool {
    let unsigned = if t.len() > 0 && is_sign(t[0]) {
        t.drop_first()
    } else {
        t
    };
    let whole_digits = digit_run(unsigned);
    let after = unsigned.skip(whole_digits as int);
    &&& after.len() > 0
    &&& after[0] == '.'
    &&& {
        let fraction = after.drop_first();
        let fraction_digits = digit_run(fraction);
        &&& whole_digits + fraction_digits > 0
        &&& fraction_digits == fraction.len() || is_exponent(
            fraction.skip(fraction_digits as int),
        )
    }
}

/// The text of a price with the given whole and fraction parts.
pub open spec fn display_text(whole: Seq<char>, fraction: Seq<char>) -> Seq<char> {
    trimmed(whole) + seq!['.'] + trimmed(fraction)
}

impl Price {
    /// Whether this price carries the expected currency symbol.
    pub fn has_expected_currency(&self) -> (expected: bool)
        ensures
            expected == (self.currency@ == EXPECTED_CURRENCY@),
    {
        same_text(self.currency.as_str(), EXPECTED_CURRENCY)
    }
}

/// Whether `c` is a digit.
fn is_digit_char(c: char) -> (b: bool)
    ensures
        b == is_digit(c),
{
    '0' <= c && c <= '9'
}

/// The digits that `s` starts with are digits, and what follows them is none.
proof fn lemma_digit_run(s: Seq<char>)
    ensures
        digit_run(s) <= s.len(),
        forall|k: int| 0 <= k < digit_run(s) ==> is_digit(#[trigger] s[k]),
        digit_run(s) < s.len() ==> !is_digit(s[digit_run(s) as int]),
    decreases s.len(),
{
    if s.len() > 0 && is_digit(s[0]) {
        lemma_digit_run(s.drop_first());
        assert forall|k: int| 0 <= k < digit_run(s) implies is_digit(#[trigger] s[k]) by {
            if k > 0 {
                assert(s[k] == s.drop_first()[k - 1]);
            }
        }
    }
}

/// The number of digits of `chars` from position `from` on.
fn count_digits(chars: &Vec<char>, from: usize) -> (count: usize)
    requires
        from <= chars@.len(),
    ensures
        count == digit_run(chars@.skip(from as int)),
        from + count <= chars@.len(),
{
    let n = chars.len();
    let mut k: usize = from;
    proof {
        lemma_digit_run(chars@.skip(from as int));
    }
    while k < n && is_digit_char(chars[k])
        invariant
            from <= k <= n,
            n == chars@.len(),
            digit_run(chars@.skip(from as int)) == (k - from) + digit_run(chars@.skip(k as int)),
        decreases n - k,
    {
        proof {
            assert(chars@.skip(k as int).drop_first() =~= chars@.skip(k + 1));
        }
        k += 1;
    }
    k - from
}

/// Whether `chars` from position `from` on is an exponent.
fn is_exponent_at(chars: &Vec<char>, from: usize) -> (ok: bool)
    requires
        from <= chars@.len(),
    ensures
        ok == is_exponent(chars@.skip(from as int)),
{
    let n = chars.len();
    let ghost s = chars@.skip(from as int);
    if n - from < 2 {
        return false;
    }
    if chars[from] != 'e' && chars[from] != 'E' {
        return false;
    }
    let digits_from: usize = if chars[from + 1] == '+' || chars[from + 1] == '-' {
        from + 2
    } else {
        from + 1
    };
    proof {
        assert(s.skip(2) =~= chars@.skip(from + 2));
        assert(s.skip(1) =~= chars@.skip(from + 1));
    }
    let count = count_digits(chars, digits_from);
    digits_from < n && count == n - digits_from
}

/// Whether `s` is a decimal numeral with a single decimal point.
pub fn is_decimal_text(s: &str) -> (ok: bool)
    ensures
        ok == is_decimal(s@),
{
    let chars = chars_of(s);
    let n = chars.len();
    let start: usize = if n > 0 && (chars[0] == '+' || chars[0] == '-') {
        1
    } else {
        0
    };
    let ghost unsigned = chars@.skip(start as int);
    proof {
        assert(chars@.drop_first() =~= chars@.skip(1));
        assert(chars@.skip(0) =~= chars@);
    }
    let whole_digits = count_digits(&chars, start);
    let dot = start + whole_digits;
    proof {
        assert(unsigned.skip(whole_digits as int) =~= chars@.skip(dot as int));
    }
    if dot >= n || chars[dot] != '.' {
        return false;
    }
    proof {
        assert(chars@.skip(dot as int).drop_first() =~= chars@.skip(dot + 1));
    }
    let fraction_digits = count_digits(&chars, dot + 1);
    if whole_digits == 0 && fraction_digits == 0 {
        return false;
    }
    let rest = dot + 1 + fraction_digits;
    proof {
        assert(chars@.skip(dot + 1).skip(fraction_digits as int) =~= chars@.skip(rest as int));
    }
    if rest == n {
        return true;
    }
    is_exponent_at(&chars, rest)
}

/// The price with the given whole part, fraction part and currency symbol,
/// each taken without the white space around it. The parts must make a decimal
/// numeral; any currency symbol is accepted. Parts that make a decimal numeral
/// as they stand are kept as they stand.
pub fn parse_price(whole: &str, fraction: &str, symbol: &str) -> (out: Result<Price, PriceError>)
    ensures
        match out {
            Ok(price) => {
                &&& is_decimal(display_text(whole@, fraction@))
                &&& price.text@ == display_text(whole@, fraction@)
                &&& price.currency@ == trimmed(symbol@)
            },
            Err(e) => !is_decimal(display_text(whole@, fraction@)) && e == PriceError::NotDecimal,
        },
        is_decimal(whole@ + seq!['.'] + fraction@) ==> out is Ok && out->Ok_0.text@ == whole@
            + seq!['.'] + fraction@,
{
    proof {
        if is_decimal(whole@ + seq!['.'] + fraction@) {
            lemma_price_text_of_well_formed_parts(whole@, fraction@);
        }
    }
    let mut text = trim(whole);
    text.append(".");
    text.append(trim(fraction).as_str());
    proof {
        reveal_strlit(".");
        assert("."@ =~= seq!['.']);
        assert(text@ =~= display_text(whole@, fraction@));
    }
    if is_decimal_text(text.as_str()) {
        Ok(Price { text, currency: trim(symbol) })
    } else {
        Err(PriceError::NotDecimal)
    }
}

/// No character of a decimal numeral is white space.
pub proof fn lemma_decimal_has_no_white_space(t: Seq<char>)
    requires
        is_decimal(t),
    ensures
        forall|i: int| 0 <= i < t.len() ==> !is_white_space(#[trigger] t[i]),
{
    let start: int = if t.len() > 0 && is_sign(t[0]) {
        1
    } else {
        0
    };
    let unsigned = t.skip(start);
    assert(t.drop_first() =~= t.skip(1));
    assert(t.skip(0) =~= t);
    let a = digit_run(unsigned) as int;
    lemma_digit_run(unsigned);
    let fraction = unsigned.skip(a).drop_first();
    let b = digit_run(fraction) as int;
    lemma_digit_run(fraction);
    let tail = fraction.skip(b);
    let digits_from: int = if tail.len() >= 2 && is_sign(tail[1]) {
        2
    } else {
        1
    };
    if b < fraction.len() {
        lemma_digit_run(tail.skip(digits_from));
    }
    assert forall|i: int| 0 <= i < t.len() implies !is_white_space(#[trigger] t[i]) by {
        let dot = start + a;
        let exp = dot + 1 + b;
        if i < start {
        } else if i < dot {
            assert(t[i] == unsigned[i - start]);
        } else if i == dot {
            assert(t[i] == unsigned.skip(a)[0]);
        } else if i < exp {
            assert(t[i] == fraction[i - dot - 1]);
        } else {
            assert(t[i] == tail[i - exp]);
            if i - exp >= digits_from {
                assert(t[i] == tail.skip(digits_from)[i - exp - digits_from]);
            }
        }
    }
}

/// Text with no white space in it is left as it is by trimming.
proof fn lemma_trimmed_is_identity(s: Seq<char>)
    requires
        forall|i: int| 0 <= i < s.len() ==> !is_white_space(#[trigger] s[i]),
    ensures
        trimmed(s) == s,
{
}

/// For whole and fraction parts that make a decimal numeral when a point is
/// put between them, the text of the price is exactly the whole part, the
/// point and the fraction part.
pub proof fn lemma_price_text_of_well_formed_parts(whole: Seq<char>, fraction: Seq<char>)
    requires
        is_decimal(whole + seq!['.'] + fraction),
    ensures
        display_text(whole, fraction) == whole + seq!['.'] + fraction,
{
    let t = whole + seq!['.'] + fraction;
    lemma_decimal_has_no_white_space(t);
    assert forall|i: int| 0 <= i < whole.len() implies !is_white_space(#[trigger] whole[i]) by {
        assert(whole[i] == t[i]);
    }
    assert forall|i: int| 0 <= i < fraction.len() implies !is_white_space(
        #[trigger] fraction[i],
    ) by {
        assert(fraction[i] == t[whole.len() + 1 + i]);
    }
    lemma_trimmed_is_identity(whole);
    lemma_trimmed_is_identity(fraction);
}

} // verus!
