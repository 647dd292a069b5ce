//! Fixed-width, zero-padded decimal rendering of a code.
use vstd::arithmetic::div_mod::lemma_div_denominator;
use vstd::prelude::*;

verus! {

/// Number of decimal digits in a code.
pub const DIGITS: u32 = 6;

/// 10 to the power `DIGITS`.
pub const MODULUS: u32 = 1_000_000;

/// Relies on std's `String::push`: appends one character at the end.
pub assume_specification[ String::push ](s: &mut String, ch: char)
    ensures
        final(s)@ == old(s)@.push(ch),
;

/// The ASCII character of the decimal digit `d`.
pub open spec fn digit_char(d: nat) -> char {
    ((48 + d) as u8) as char
}

/// The last `width` decimal digits of `v`, most significant first, with
/// leading zeros.
pub open spec fn decimal_digits(v: nat, width: nat) -> Seq<char>
    decreases width,
{
    if width == 0 {
        Seq::empty()
    } else {
        decimal_digits(v / 10, (width - 1) as nat).push(digit_char(v % 10))
    }
}

/// The text of a code: the value modulo 10^6 as six zero-padded digits.
pub open spec fn code_text(value: u32) -> Seq<char> {
    decimal_digits((value % 1_000_000) as nat, 6)
}

/// An ASCII decimal digit.
pub open spec fn is_digit(c: char) -> bool {
    '0' <= c && c <= '9'
}

/// `decimal_digits` always gives exactly `width` characters, each a digit.
pub proof fn lemma_decimal_digits_shape(v: nat, width: nat)
    ensures
        decimal_digits(v, width).len() == width,
        forall|i: int| 0 <= i < width ==> #[trigger] is_digit(decimal_digits(v, width)[i]),
    decreases width,
{
    if width > 0 {
        lemma_decimal_digits_shape(v / 10, (width - 1) as nat);
        let d = v % 10;
        assert(is_digit(digit_char(d)));
    }
}

fn push_digits(s: &mut String, v: u32, width: u32)
    ensures
        final(s)@ == old(s)@ + decimal_digits(v as nat, width as nat),
    decreases width,
{
    if width > 0 {
        push_digits(s, v / 10, width - 1);
        let d = (v % 10) as u8;
        s.push((48u8 + d) as char);
        assert(s@ =~= old(s)@ + decimal_digits(v as nat, width as nat));
    } else {
        assert(s@ =~= old(s)@ + decimal_digits(v as nat, width as nat));
    }
}

/// Renders `value` modulo 10^6 as six decimal digits, zero-padded on the left.
pub fn format_code(value: u32) -> (r: String)
    ensures
        r@ == code_text(value),
        r@.len() == 6,
        forall|i: int| 0 <= i < 6 ==> #[trigger] is_digit(r@[i]),
{
    let mut s = String::new();
    push_digits(&mut s, value % MODULUS, DIGITS);
    proof {
        assert(s@ =~= code_text(value));
        lemma_decimal_digits_shape((value % 1_000_000) as nat, 6);
    }
    s
}

/// 10 to the power `k`.
pub open spec fn pow10(k: nat) -> nat
    decreases k,
{
    if k == 0 {
        1
    } else {
        10 * pow10((k - 1) as nat)
    }
}

/// Place by place, `decimal_digits` holds the digit of `v` of that weight:
/// character `i` is digit `(v / 10^(width - 1 - i)) % 10`.
pub proof fn lemma_decimal_digits_places(v: nat, width: nat, i: int)
    requires
        0 <= i < width,
    ensures
        decimal_digits(v, width).len() == width,
        decimal_digits(v, width)[i] == digit_char((v / pow10((width - 1 - i) as nat)) % 10),
    decreases width,
{
    lemma_decimal_digits_shape(v, width);
    lemma_decimal_digits_shape(v / 10, (width - 1) as nat);
    let prefix = decimal_digits(v / 10, (width - 1) as nat);
    assert(decimal_digits(v, width) == prefix.push(digit_char(v % 10)));
    if i == width - 1 {
        assert(pow10(0) == 1);
        assert(v / 1 == v);
    } else {
        let k = (width - 2 - i) as nat;
        assert(decimal_digits(v, width)[i] == prefix[i]);
        lemma_decimal_digits_places(v / 10, (width - 1) as nat, i);
        assert(pow10(k) > 0) by {
            lemma_pow10_positive(k);
        }
        lemma_div_denominator(v as int, 10, pow10(k) as int);
        assert(pow10((width - 1 - i) as nat) == 10 * pow10(k));
        assert((v / 10) / pow10(k) == v / pow10((width - 1 - i) as nat));
    }
}

proof fn lemma_pow10_positive(k: nat)
    ensures
        pow10(k) > 0,
    decreases k,
{
    if k > 0 {
        lemma_pow10_positive((k - 1) as nat);
    }
}

/// A code is six digits, zero-padded: with `n` the value modulo 10^6,
/// character `i` is the digit `(n / 10^(5 - i)) % 10`.
pub proof fn lemma_code_text_places(value: u32, i: int)
    requires
        0 <= i < 6,
    ensures
        code_text(value).len() == 6,
        is_digit(code_text(value)[i]),
        code_text(value)[i] == digit_char(((value % 1_000_000) as nat / pow10((5 - i) as nat)) % 10),
{
    lemma_decimal_digits_places((value % 1_000_000) as nat, 6, i);
    lemma_decimal_digits_shape((value % 1_000_000) as nat, 6);
}

} // verus!
