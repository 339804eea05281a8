//! What holds between parsing, rendering and the two readings of a bit
//! pattern, and of clamping and wrapping into a domain.

use crate::base::arith::{two_pow_128, wrap_signed, wrap_unsigned, Const};
use crate::base::parse::{
    all_digits, digit_value, digits_value, in_range, is_literal, lemma_parse_outcome, literal_body,
    literal_value, parsed, ParseError,
};
use crate::base::render::{digit_char, radix_digits};
use vstd::prelude::*;

verus! {

/// Parsing a well-formed literal whose number has a place in the domain,
/// then reading the result in that same domain, gives the number written.
pub proof fn lemma_parse_then_widen(s: Seq<char>, radix: u32, signed: bool)
    requires
        is_literal(s, radix, signed),
        in_range(literal_value(s, radix, signed), signed),
    ensures
        parsed(s, radix, signed) is Ok,
        signed ==> parsed(s, radix, signed)->Ok_0.signed_bits() == literal_value(s, radix, signed),
        !signed ==> parsed(s, radix, signed)->Ok_0.unsigned_bits() == literal_value(
            s,
            radix,
            signed,
        ),
{
    lemma_parse_outcome(s, radix, signed);
}

/// Reading a pattern in the other domain and back changes nothing: the two
/// readings of a value determine each other.
pub proof fn lemma_widening_is_lossless(c: Const)
    ensures
        wrap_signed(c.unsigned_bits()) == c.signed_bits(),
        wrap_unsigned(c.signed_bits()) == c.unsigned_bits(),
        c is Unsigned ==> c.unsigned_bits() == c.magnitude(),
        c is Signed ==> c.signed_bits() == c.magnitude(),
        (c.unsigned_bits() == 0) == (c.magnitude() == 0),
        (c.signed_bits() == 0) == (c.magnitude() == 0),
{
}

/// Clamping and wrapping both give a magnitude of the domain and leave
/// alone one that is already of the domain. Past either end of the domain,
/// clamping gives that end, while wrapping gives the magnitude of the domain
/// that differs from the number by a multiple of 2^128.
pub proof fn lemma_clamp_and_wrap(c: Const, m: int)
    ensures
        c.in_domain(c.clamp(m)),
        c.in_domain(c.wrap(m)),
        c.in_domain(m) ==> c.clamp(m) == m && c.wrap(m) == m,
        !c.in_domain(m) && m > 0 ==> c.clamp(m) < m && !c.in_domain(c.clamp(m) + 1),
        !c.in_domain(m) && m < 0 ==> c.clamp(m) > m && !c.in_domain(c.clamp(m) - 1),
        (c.wrap(m) - m) % two_pow_128() == 0,
{
}

/// A digit's character stands for that digit.
pub proof fn lemma_digit_char(d: nat)
    requires
        d < 36,
    ensures
        digit_value(digit_char(d)) == Some(d),
        digit_char(d) != '+',
        digit_char(d) != '-',
{
}

/// The digits of a number are digits of the radix, at least one, and write
/// that number.
pub proof fn lemma_radix_digits(n: nat, radix: u32)
    requires
        2 <= radix <= 36,
    ensures
        radix_digits(n, radix).len() > 0,
        all_digits(radix_digits(n, radix), radix),
        digits_value(radix_digits(n, radix), radix) == n,
        radix_digits(n, radix)[0] != '+',
        radix_digits(n, radix)[0] != '-',
    decreases n,
{
    let digits = radix_digits(n, radix);
    if n < radix {
        lemma_digit_char(n);
        assert(digits.drop_last().len() == 0);
        assert(digits_value(digits.drop_last(), radix) == 0);
        assert(digits.last() == digit_char(n));
    } else {
        let high = n / (radix as nat);
        let low = n % (radix as nat);
        assert(high < n && low < radix && high * (radix as nat) + low == n) by (nonlinear_arith)
            requires
                radix >= 2,
                n >= radix,
                high == n / (radix as nat),
                low == n % (radix as nat),
        ;
        lemma_radix_digits(high, radix);
        lemma_digit_char(low);
        assert(digits.drop_last() == radix_digits(high, radix));
        assert(digits.last() == digit_char(low));
        assert(digits[0] == radix_digits(high, radix)[0]);
        assert(digits_value(digits, radix) == digits_value(digits.drop_last(), radix) * (
        radix as nat) + low);
    }
}

/// Writing a constant's magnitude in a radix and parsing the digits in the
/// constant's own domain gives the constant back.
pub proof fn lemma_render_then_parse(c: Const, radix: u32)
    requires
        2 <= radix <= 36,
    ensures
        parsed(c.digits(radix), radix, c is Signed) == Ok::<Const, ParseError>(c),
{
    let signed = c is Signed;
    let text = c.digits(radix);
    let m = c.magnitude();
    if m < 0 {
        lemma_radix_digits((-m) as nat, radix);
        assert(text[0] == '-');
        assert(literal_body(text, signed) == radix_digits((-m) as nat, radix));
    } else {
        lemma_radix_digits(m as nat, radix);
        assert(literal_body(text, signed) == text);
    }
    lemma_parse_outcome(text, radix, signed);
}

} // verus!
