//! Numbers as the item text writes them: runs of digits, and decimals with a point.

use core::str::FromStr;
use vstd::prelude::*;
use vstd::string::*;

use crate::text::chars_of;

verus! {

/// A decimal number: `mantissa` divided by ten to the power `scale`.
///
/// Two decimals are equal when both fields are; `1.50` (150, scale 2) is not `1.5`.
#[derive(Clone, Copy, Debug, PartialEq, Eq, Structural)]
pub struct Decimal {
    pub mantissa: i128,
    pub scale: u32,
}

impl From<i32> for Decimal {
    fn from(value: i32) -> (d: Decimal) {
        Decimal { mantissa: value as i128, scale: 0 }
    }
}

impl vstd::std_specs::convert::FromSpecImpl<i32> for Decimal {
    open spec fn obeys_from_spec() -> bool {
        true
    }

    open spec fn from_spec(value: i32) -> Decimal {
        Decimal { mantissa: value as i128, scale: 0 }
    }
}

/// The largest mantissa, plus one, that a parsed decimal keeps without rounding.
pub open spec fn mantissa_limit() -> int {
    0x1_0000_0000_0000_0000_0000_0000
}

/// The largest scale that a parsed decimal keeps without rounding.
pub open spec fn scale_limit() -> int {
    28
}

/// Whether `c` is one of the ten digits `0` to `9`.
pub open spec fn is_digit(c: char) -> bool {
    '0' <= c <= '9'
}

/// The number that a digit stands for.
pub open spec fn digit_value(c: char) -> int {
    c as int - '0' as int
}

/// Whether `s` is made of digits only; the empty text is.
pub open spec fn all_digits(s: Seq<char>) -> bool {
    forall|i: int| 0 <= i < s.len() ==> is_digit(#[trigger] s[i])
}

/// The number that the digits of `s` spell in base ten.
pub open spec fn digits_value(s: Seq<char>) -> int
    decreases s.len(),
{
    if s.len() == 0 {
        0
    } else {
        digits_value(s.drop_last()) * 10 + digit_value(s.last())
    }
}

/// The end of the run of digits that begins at `i`.
pub open spec fn digits_end(s: Seq<char>, i: int) -> int
    decreases s.len() - i,
{
    if 0 <= i < s.len() && is_digit(s[i]) {
        digits_end(s, i + 1)
    } else {
        i
    }
}

/// The end of the number that begins at `i`: a run of digits, and a point with the digits
/// behind it where at least one digit follows the point.
pub open spec fn number_end(s: Seq<char>, i: int) -> int {
    let p = digits_end(s, i);
    if p + 1 < s.len() && s[p] == '.' && is_digit(s[p + 1]) {
        digits_end(s, p + 1)
    } else {
        p
    }
}

/// A number token: one digit or more, then perhaps a point and one digit or more.
pub open spec fn is_number_token(t: Seq<char>) -> bool {
    let p = digits_end(t, 0);
    &&& p > 0
    &&& (p == t.len() || (t[p] == '.' && p + 1 < t.len() && digits_end(t, p + 1) == t.len()))
}

/// The digits of a number token in their order, without the point.
pub open spec fn token_digits(t: Seq<char>) -> Seq<char> {
    let p = digits_end(t, 0);
    if p < t.len() {
        t.subrange(0, p) + t.subrange(p + 1, t.len() as int)
    } else {
        t
    }
}

/// How many digits of a number token stand behind its point.
pub open spec fn token_scale(t: Seq<char>) -> int {
    let p = digits_end(t, 0);
    if p < t.len() {
        t.len() - p - 1
    } else {
        0
    }
}

/// Whether a decimal holds the token digit for digit.
pub open spec fn fits_exactly(t: Seq<char>) -> bool {
    &&& token_scale(t) <= scale_limit()
    &&& digits_value(token_digits(t)) < mantissa_limit()
}

/// The decimal that holds a token digit for digit.
pub open spec fn exact_decimal(t: Seq<char>) -> Decimal {
    Decimal { mantissa: digits_value(token_digits(t)) as i128, scale: token_scale(t) as u32 }
}

/// What `rust_decimal` makes of a number token that no decimal holds digit for digit:
/// a rounded value, or nothing.
pub uninterp spec fn rounded_reading(token: Seq<char>) -> Option<Decimal>;

/// The decimal that a number token is read as.
pub open spec fn reading_of(token: Seq<char>) -> Option<Decimal> {
    if fits_exactly(token) {
        Some(exact_decimal(token))
    } else {
        rounded_reading(token)
    }
}

/// The number that `s` spells if it is one digit or more and the number is `max` at most.
pub open spec fn bounded_number(s: Seq<char>, max: int) -> Option<int> {
    if s.len() > 0 && all_digits(s) && digits_value(s) <= max {
        Some(digits_value(s))
    } else {
        None
    }
}

/// Reads a number token with `rust_decimal::Decimal::from_str` and hands back the mantissa
/// and the scale of what it made.
///
/// Trusted: on a token of digits with at most one point between them, `from_str` neither
/// panics nor looks at anything but the token. Where at most 28 digits follow the point and
/// the digits, read as one integer, stay below 2^96, it keeps every digit: the mantissa is
/// that integer and the scale the count of digits behind the point. On longer tokens it
/// rounds or fails; of that only the name `rounded_reading` is stated.
#[verifier::external_body]
pub(crate) fn read_decimal(token: &str) -> (r: Option<Decimal>)
    requires
        is_number_token(token@),
    ensures
        fits_exactly(token@) ==> r == Some(exact_decimal(token@)),
        !fits_exactly(token@) ==> r == rounded_reading(token@),
{
    match rust_decimal::Decimal::from_str(token) {
        Ok(d) => Some(Decimal { mantissa: d.mantissa(), scale: d.scale() }),
        Err(_) => None,
    }
}

/// A run of digits ends within the text; all before its end are digits, and what stands
/// at its end is none.
pub proof fn lemma_digits_end_bounds(s: Seq<char>, i: int)
    requires
        0 <= i <= s.len(),
    ensures
        i <= digits_end(s, i) <= s.len(),
        forall|k: int| i <= k < digits_end(s, i) ==> is_digit(#[trigger] s[k]),
        digits_end(s, i) < s.len() ==> !is_digit(s[digits_end(s, i)]),
    decreases s.len() - i,
{
    if i < s.len() && is_digit(s[i]) {
        lemma_digits_end_bounds(s, i + 1);
    }
}

/// A run of digits that ends at a character that is no digit, or at the end, is what
/// `digits_end` finds.
pub proof fn lemma_digits_end_is(s: Seq<char>, i: int, e: int)
    requires
        0 <= i <= e <= s.len(),
        forall|k: int| i <= k < e ==> is_digit(#[trigger] s[k]),
        e < s.len() ==> !is_digit(s[e]),
    ensures
        digits_end(s, i) == e,
    decreases e - i,
{
    if i < e {
        lemma_digits_end_is(s, i + 1, e);
    }
}

/// The number that begins at a digit is a number token.
pub proof fn lemma_number_is_token(s: Seq<char>, i: int)
    requires
        0 <= i < s.len(),
        is_digit(s[i]),
    ensures
        i < number_end(s, i) <= s.len(),
        is_number_token(s.subrange(i, number_end(s, i))),
{
    let p = digits_end(s, i);
    let e = number_end(s, i);
    lemma_digits_end_bounds(s, i);
    lemma_digits_end_bounds(s, i + 1);
    if p + 1 < s.len() && s[p] == '.' && is_digit(s[p + 1]) {
        lemma_digits_end_bounds(s, p + 1);
        lemma_digits_end_bounds(s, p + 2);
    }
    let t = s.subrange(i, e);
    assert forall|k: int| 0 <= k < p - i implies is_digit(#[trigger] t[k]) by {
        assert(t[k] == s[k + i]);
    }
    if e == p {
        lemma_digits_end_is(t, 0, p - i);
    } else {
        assert(t[p - i] == s[p]);
        lemma_digits_end_is(t, 0, p - i);
        assert forall|k: int| p - i + 1 <= k < e - i implies is_digit(#[trigger] t[k]) by {
            assert(t[k] == s[k + i]);
        }
        lemma_digits_end_is(t, p - i + 1, e - i);
    }
}

/// A longer run of digits spells no smaller number.
pub proof fn lemma_digits_value_grows(s: Seq<char>, k: int)
    requires
        all_digits(s),
        0 <= k <= s.len(),
    ensures
        0 <= digits_value(s.take(k)) <= digits_value(s),
    decreases s.len() - k,
{
    lemma_digits_value_nonnegative(s.take(k));
    if k < s.len() {
        lemma_digits_value_grows(s, k + 1);
        assert(s.take(k + 1).drop_last() == s.take(k));
        assert(is_digit(s[k]));
        assert(s.take(k + 1).last() == s[k]);
    } else {
        assert(s.take(k) == s);
    }
}

/// Digits spell no negative number.
pub proof fn lemma_digits_value_nonnegative(s: Seq<char>)
    requires
        all_digits(s),
    ensures
        0 <= digits_value(s),
    decreases s.len(),
{
    if s.len() > 0 {
        lemma_digits_value_nonnegative(s.drop_last());
        assert(is_digit(s[s.len() - 1]));
    }
}

/// The digit that stands for `d`, a number below ten.
pub open spec fn digit_char(d: int) -> char {
    seq!['0', '1', '2', '3', '4', '5', '6', '7', '8', '9'][d]
}

/// `n` written in base ten, without leading zeros.
pub open spec fn decimal_text(n: nat) -> Seq<char>
    decreases n,
{
    if n < 10 {
        seq![digit_char(n as int)]
    } else {
        decimal_text(n / 10).push(digit_char((n % 10) as int))
    }
}

/// What `decimal_text` writes is made of digits and spells the number again.
pub proof fn lemma_decimal_text_reads_back(n: nat)
    ensures
        decimal_text(n).len() > 0,
        all_digits(decimal_text(n)),
        digits_value(decimal_text(n)) == n,
    decreases n,
{
    if n < 10 {
        let t = decimal_text(n);
        assert(t.drop_last() =~= Seq::<char>::empty());
        assert(digits_value(t.drop_last()) == 0);
    } else {
        lemma_decimal_text_reads_back(n / 10);
        let front = decimal_text(n / 10);
        let t = decimal_text(n);
        assert(t.drop_last() =~= front);
        assert(t.last() == digit_char((n % 10) as int));
        assert forall|i: int| 0 <= i < t.len() implies is_digit(#[trigger] t[i]) by {
            if i < front.len() {
                assert(t[i] == front[i]);
            }
        }
    }
}

/// The digit that stands for `d`, as a text of one character.
pub fn digit_text(d: usize) -> (r: &'static str)
    requires
        d < 10,
    ensures
        r@ == seq![digit_char(d as int)],
{
    proof {
        reveal_strlit("0");
        reveal_strlit("1");
        reveal_strlit("2");
        reveal_strlit("3");
        reveal_strlit("4");
        reveal_strlit("5");
        reveal_strlit("6");
        reveal_strlit("7");
        reveal_strlit("8");
        reveal_strlit("9");
    }
    let r = if d == 0 {
        "0"
    } else if d == 1 {
        "1"
    } else if d == 2 {
        "2"
    } else if d == 3 {
        "3"
    } else if d == 4 {
        "4"
    } else if d == 5 {
        "5"
    } else if d == 6 {
        "6"
    } else if d == 7 {
        "7"
    } else if d == 8 {
        "8"
    } else {
        "9"
    };
    assert(r@ =~= seq![digit_char(d as int)]);
    r
}

/// `n` written in base ten, without leading zeros.
pub fn number_text(n: usize) -> (r: String)
    ensures
        r@ == decimal_text(n as nat),
    decreases n,
{
    if n < 10 {
        digit_text(n).to_owned()
    } else {
        let mut r = number_text(n / 10);
        r.append(digit_text(n % 10));
        assert(r@ =~= decimal_text(n as nat));
        r
    }
}

/// Whether `c` is one of the ten digits `0` to `9`.
pub fn is_digit_char(c: char) -> (r: bool)
    ensures
        r == is_digit(c),
{
    '0' <= c && c <= '9'
}

/// The end of the run of digits that begins at `i`.
pub fn run_end(chars: &Vec<char>, i: usize) -> (e: usize)
    requires
        i <= chars.len(),
    ensures
        e == digits_end(chars@, i as int),
        i <= e <= chars.len(),
{
    let mut e: usize = i;
    while e < chars.len() && is_digit_char(chars[e])
        invariant
            i <= e <= chars.len(),
            digits_end(chars@, i as int) == digits_end(chars@, e as int),
        decreases chars.len() - e,
    {
        e += 1;
    }
    e
}

/// The end of the number that begins at the digit at `i`.
pub fn scan_number(chars: &Vec<char>, i: usize) -> (e: usize)
    requires
        i < chars.len(),
        is_digit(chars@[i as int]),
    ensures
        e == number_end(chars@, i as int),
        i < e <= chars.len(),
        is_number_token(chars@.subrange(i as int, e as int)),
{
    proof {
        lemma_number_is_token(chars@, i as int);
    }
    let p = run_end(chars, i);
    if p < chars.len() && chars[p] == '.' && p + 1 < chars.len() && is_digit_char(chars[p + 1]) {
        run_end(chars, p + 1)
    } else {
        p
    }
}

/// Reads `text` as a number of one digit or more that is `max` at most.
pub fn parse_bounded(text: &str, max: u64) -> (r: Option<u64>)
    ensures
        match r {
            Some(v) => bounded_number(text@, max as int) == Some(v as int),
            None => bounded_number(text@, max as int) is None,
        },
{
    let chars = chars_of(text);
    if chars.len() == 0 {
        return None;
    }
    let mut acc: u64 = 0;
    let mut i: usize = 0;
    while i < chars.len()
        invariant
            chars@ == text@,
            i <= chars.len(),
            all_digits(chars@.take(i as int)),
            acc == digits_value(chars@.take(i as int)),
            acc <= max,
        decreases chars.len() - i,
    {
        let c = chars[i];
        proof {
            assert(chars@.take(i + 1).drop_last() == chars@.take(i as int));
            assert(chars@.take(i + 1).last() == c);
        }
        if !is_digit_char(c) {
            assert(!all_digits(chars@)) by {
                assert(!is_digit(chars@[i as int]));
            }
            return None;
        }
        let d: u64 = (c as u32 - '0' as u32) as u64;
        if d > max || acc > (max - d) / 10 {
            proof {
                if all_digits(chars@) {
                    lemma_digits_value_grows(chars@, i + 1);
                }
            }
            return None;
        }
        acc = acc * 10 + d;
        assert(all_digits(chars@.take(i + 1))) by {
            assert forall|k: int| 0 <= k < i + 1 implies is_digit(
                #[trigger] chars@.take(i + 1)[k],
            ) by {
                if k < i {
                    assert(chars@.take(i as int)[k] == chars@.take(i + 1)[k]);
                }
            }
        }
        i += 1;
    }
    proof {
        assert(chars@.take(i as int) == chars@);
    }
    Some(acc)
}

} // verus!
