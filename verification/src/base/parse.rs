//! Constants from digit strings in a radix from 2 to 36.
//!
//! A literal is an optional sign followed by one or more digits. The digits
//! are `0`-`9` and the letters of either case, `a` and `A` standing for ten
//! and `z` and `Z` for thirty-five; a digit is valid where it is below the
//! radix. An unsigned literal may carry a `+`, a signed one a `+` or a `-`.

use crate::base::arith::{two_pow_127, two_pow_128, Const};
use vstd::prelude::*;
use vstd::std_specs::iter::IteratorSpec;
use vstd::string::{axiom_spec_iter, next_postcondition};

verus! {

/// Why a digit string is not a constant.
#[derive(Clone, Copy, Debug, PartialEq, Eq, Structural)]
pub enum ParseError {
    /// The string is empty.
    Empty,
    /// A character is not a digit of the radix, or a sign stands alone.
    InvalidDigit,
    /// The number is above the largest value of the domain.
    PosOverflow,
    /// The number is below the smallest value of the domain.
    NegOverflow,
}

/// The number that `c` stands for as a digit, if it is a digit in any radix.
pub open spec fn digit_value(c: char) -> Option<nat> {
    if '0' <= c <= '9' {
        Some((c as int - '0' as int) as nat)
    } else if 'a' <= c <= 'z' {
        Some((c as int - 'a' as int + 10) as nat)
    } else if 'A' <= c <= 'Z' {
        Some((c as int - 'A' as int + 10) as nat)
    } else {
        None
    }
}

/// Whether `c` is a digit of the given radix.
pub open spec fn is_digit(c: char, radix: u32) -> bool {
    match digit_value(c) {
        Some(d) => d < radix,
        None => false,
    }
}

/// Whether every character of `s` is a digit of the given radix.
pub open spec fn all_digits(s: Seq<char>, radix: u32) -> bool {
    forall|i: int| 0 <= i < s.len() ==> is_digit(#[trigger] s[i], radix)
}

/// The number that the digits `s` write in the given radix, most significant
/// digit first. A character that is no digit counts as zero.
pub open spec fn digits_value(s: Seq<char>, radix: u32) -> nat
    decreases s.len(),
{
    if s.len() == 0 {
        0
    } else {
        let low: nat = match digit_value(s.last()) {
            Some(d) => d,
            None => 0,
        };
        digits_value(s.drop_last(), radix) * (radix as nat) + low
    }
}

/// How many digits of the given radix `s` begins with.
pub open spec fn digit_run(s: Seq<char>, radix: u32) -> nat
    decreases s.len(),
{
    if s.len() == 0 || !is_digit(s[0], radix) {
        0
    } else {
        1 + digit_run(s.drop_first(), radix)
    }
}

/// Whether `s` begins with a minus sign that a signed literal reads as one.
pub open spec fn is_negative(s: Seq<char>, signed: bool) -> bool {
    signed && s.len() > 0 && s[0] == '-'
}

/// `s` without its first character where `after_sign` is set, else `s`.
pub open spec fn behind_sign(s: Seq<char>, after_sign: bool) -> Seq<char> {
    if after_sign {
        s.drop_first()
    } else {
        s
    }
}

/// What follows the sign of `s`, or all of `s` where it carries no sign.
pub open spec fn literal_body(s: Seq<char>, signed: bool) -> Seq<char> {
    behind_sign(s, s.len() > 0 && (s[0] == '+' || is_negative(s, signed)))
}

/// Whether `s` is a well-formed literal: an optional sign, then one or more
/// digits of the radix and nothing else.
pub open spec fn is_literal(s: Seq<char>, radix: u32, signed: bool) -> bool {
    literal_body(s, signed).len() > 0 && all_digits(literal_body(s, signed), radix)
}

/// The number that a well-formed literal writes.
pub open spec fn literal_value(s: Seq<char>, radix: u32, signed: bool) -> int {
    if is_negative(s, signed) {
        -(digits_value(literal_body(s, signed), radix) as int)
    } else {
        digits_value(literal_body(s, signed), radix) as int
    }
}

/// The largest magnitude that the digits of `s` may write: `2^128 - 1` in
/// the unsigned domain, `2^127 - 1` in the signed one, and `2^127` behind a
/// minus sign.
pub open spec fn magnitude_limit(s: Seq<char>, signed: bool) -> int {
    if !signed {
        two_pow_128() - 1
    } else if is_negative(s, signed) {
        two_pow_127()
    } else {
        two_pow_127() - 1
    }
}

/// The outcome of reading the digits `body` of a literal, whose magnitude
/// may not exceed `limit`. The digits are read from the left, and the first
/// fault met decides the error: digits that already write too large a number
/// are an overflow even where a character that is no digit follows them; a
/// character that is no digit is an invalid digit where the digits before it
/// are still in range.
pub open spec fn scan_outcome(body: Seq<char>, radix: u32, limit: int, negative: bool) -> Result<
    nat,
    ParseError,
> {
    let run = body.take(digit_run(body, radix) as int);
    let seen = digits_value(run, radix);
    if body.len() == 0 {
        Err(ParseError::InvalidDigit)
    } else if seen > limit {
        if negative {
            Err(ParseError::NegOverflow)
        } else {
            Err(ParseError::PosOverflow)
        }
    } else if run.len() < body.len() {
        Err(ParseError::InvalidDigit)
    } else {
        Ok(seen)
    }
}

/// The outcome of parsing `s`: the number it writes, or the first fault met
/// when reading it from the left.
pub open spec fn parse_outcome(s: Seq<char>, radix: u32, signed: bool) -> Result<int, ParseError> {
    if s.len() == 0 {
        Err(ParseError::Empty)
    } else {
        match scan_outcome(
            literal_body(s, signed),
            radix,
            magnitude_limit(s, signed),
            is_negative(s, signed),
        ) {
            Ok(m) => if is_negative(s, signed) {
                Ok(-(m as int))
            } else {
                Ok(m as int)
            },
            Err(e) => Err(e),
        }
    }
}

/// What parsing `s` returns: the constant of the domain's variant that holds
/// the number written, or the error.
pub open spec fn parsed(s: Seq<char>, radix: u32, signed: bool) -> Result<Const, ParseError> {
    match parse_outcome(s, radix, signed) {
        Ok(v) => if signed {
            Ok(Const::Signed(v as i128))
        } else {
            Ok(Const::Unsigned(v as u128))
        },
        Err(e) => Err(e),
    }
}

/// Whether the number `v` has a place in the domain.
pub open spec fn in_range(v: int, signed: bool) -> bool {
    if signed {
        -two_pow_127() <= v < two_pow_127()
    } else {
        0 <= v < two_pow_128()
    }
}

/// The digits that `s` begins with are digits, and the character behind
/// them, if there is one, is none.
pub proof fn lemma_digit_run(s: Seq<char>, radix: u32)
    ensures
        digit_run(s, radix) <= s.len(),
        all_digits(s.take(digit_run(s, radix) as int), radix),
        digit_run(s, radix) < s.len() ==> !is_digit(s[digit_run(s, radix) as int], radix),
    decreases s.len(),
{
    if s.len() == 0 || !is_digit(s[0], radix) {
    } else {
        let rest = s.drop_first();
        lemma_digit_run(rest, radix);
        let n = digit_run(rest, radix) as int;
        assert forall|i: int| 0 <= i < n + 1 implies is_digit(
            #[trigger] s.take(n + 1)[i],
            radix,
        ) by {
            if i > 0 {
                assert(s.take(n + 1)[i] == rest.take(n)[i - 1]);
            }
        }
        if n < rest.len() {
            assert(s[n + 1] == rest[n]);
        }
    }
}

/// Where the first `n` characters of `s` are digits and the next one, if
/// there is one, is none, `s` begins with exactly `n` digits.
pub proof fn lemma_digit_run_is(s: Seq<char>, radix: u32, n: int)
    requires
        0 <= n <= s.len(),
        all_digits(s.take(n), radix),
        n < s.len() ==> !is_digit(s[n], radix),
    ensures
        digit_run(s, radix) == n,
{
    lemma_digit_run(s, radix);
    let m = digit_run(s, radix) as int;
    if m < n {
        assert(s.take(n)[m] == s[m]);
    } else if n < m {
        assert(s.take(m)[n] == s[n]);
    }
}

/// A string written with more digits does not write a smaller number.
pub proof fn lemma_digits_value_grows(s: Seq<char>, radix: u32, n: int)
    requires
        0 <= n <= s.len(),
        radix >= 1,
    ensures
        digits_value(s.take(n), radix) <= digits_value(s, radix),
    decreases s.len(),
{
    if n == s.len() {
        assert(s.take(n) == s);
    } else {
        let front = s.drop_last();
        lemma_digits_value_grows(front, radix, n);
        assert(front.take(n) == s.take(n));
        assert(digits_value(front, radix) <= digits_value(front, radix) * (radix as nat))
            by (nonlinear_arith)
            requires
                radix >= 1,
        ;
    }
}

/// Exactly the well-formed literals whose number has a place in the domain
/// parse, and each to the number it writes.
pub proof fn lemma_parse_outcome(s: Seq<char>, radix: u32, signed: bool)
    ensures
        parse_outcome(s, radix, signed) is Ok <==> is_literal(s, radix, signed) && in_range(
            literal_value(s, radix, signed),
            signed,
        ),
        parse_outcome(s, radix, signed) is Ok ==> parse_outcome(s, radix, signed) == Ok::<
            int,
            ParseError,
        >(literal_value(s, radix, signed)),
{
    let body = literal_body(s, signed);
    lemma_digit_run(body, radix);
    if all_digits(body, radix) {
        assert(body.take(body.len() as int) == body);
        lemma_digit_run_is(body, radix, body.len() as int);
    }
    if digit_run(body, radix) == body.len() {
        assert(body.take(body.len() as int) == body);
    }
}

/// The digit that `c` is in the given radix, if it is one.
fn digit_of(c: char, radix: u32) -> (r: Option<u32>)
    requires
        2 <= radix <= 36,
    ensures
        r is Some == is_digit(c, radix),
        r is Some ==> digit_value(c) == Some(r->Some_0 as nat),
{
    let d: u32 = if c >= '0' && c <= '9' {
        c as u32 - '0' as u32
    } else if c >= 'a' && c <= 'z' {
        c as u32 - 'a' as u32 + 10
    } else if c >= 'A' && c <= 'Z' {
        c as u32 - 'A' as u32 + 10
    } else {
        return None;
    };
    if d < radix {
        Some(d)
    } else {
        None
    }
}

/// Reads the digits of `s`, behind its first character where `after_sign`
/// is set, up to the magnitude `limit`.
fn scan_digits(s: &str, after_sign: bool, radix: u32, limit: u128, negative: bool) -> (r: Result<
    u128,
    ParseError,
>)
    requires
        2 <= radix <= 36,
        after_sign ==> s@.len() > 0,
    ensures
        match scan_outcome(behind_sign(s@, after_sign), radix, limit as int, negative) {
            Ok(m) => r == Ok::<u128, ParseError>(m as u128) && m <= limit,
            Err(e) => r == Err::<u128, ParseError>(e),
        },
{
    let ghost body = behind_sign(s@, after_sign);
    let ghost mut n: int = 0;
    let mut it = s.chars();
    proof {
        axiom_spec_iter(s);
    }
    if after_sign {
        let ghost before = it;
        let sign = it.next();
        proof {
            next_postcondition(&before, &it, sign);
        }
    }
    let mut acc: u128 = 0;
    let mut any: bool = false;
    proof {
        assert(body.skip(0) == body);
        assert(body.take(0).len() == 0);
    }
    loop
        invariant
            2 <= radix <= 36,
            after_sign ==> s@.len() > 0,
            body == behind_sign(s@, after_sign),
            0 <= n <= body.len(),
            it.remaining() == body.skip(n),
            all_digits(body.take(n), radix),
            acc == digits_value(body.take(n), radix),
            acc <= limit,
            any == (n > 0),
        decreases body.len() - n,
    {
        let ghost before = it;
        let next = it.next();
        proof {
            next_postcondition(&before, &it, next);
        }
        match next {
            None => {
                proof {
                    lemma_digit_run_is(body, radix, n);
                    assert(body.take(n) == body);
                }
                return if any {
                    Ok(acc)
                } else {
                    Err(ParseError::InvalidDigit)
                };
            },
            Some(c) => {
                proof {
                    assert(c == body[n]);
                    assert(body.skip(n).drop_first() == body.skip(n + 1));
                    assert(body.take(n + 1).drop_last() == body.take(n));
                }
                match digit_of(c, radix) {
                    None => {
                        proof {
                            lemma_digit_run_is(body, radix, n);
                        }
                        return Err(ParseError::InvalidDigit);
                    },
                    Some(d) => {
                        let grown: Option<u128> = match acc.checked_mul(radix as u128) {
                            Some(m) => m.checked_add(d as u128),
                            None => None,
                        };
                        let kept: Option<u128> = match grown {
                            Some(v) => if v <= limit {
                                Some(v)
                            } else {
                                None
                            },
                            None => None,
                        };
                        proof {
                            assert forall|i: int| 0 <= i < n + 1 implies is_digit(
                                #[trigger] body.take(n + 1)[i],
                                radix,
                            ) by {
                                if i < n {
                                    assert(body.take(n + 1)[i] == body.take(n)[i]);
                                }
                            }
                        }
                        match kept {
                            Some(v) => {
                                acc = v;
                                any = true;
                                proof {
                                    n = n + 1;
                                }
                            },
                            None => {
                                proof {
                                    lemma_digit_run(body, radix);
                                    let m = digit_run(body, radix) as int;
                                    if m < n + 1 {
                                        assert(body.take(n + 1)[m] == body[m]);
                                    }
                                    lemma_digits_value_grows(body.take(m), radix, n + 1);
                                    assert(body.take(m).take(n + 1) == body.take(n + 1));
                                }
                                return if negative {
                                    Err(ParseError::NegOverflow)
                                } else {
                                    Err(ParseError::PosOverflow)
                                };
                            },
                        }
                    },
                }
            },
        }
    }
}

/// Reads the literal `s`: whether it is negative, and its magnitude.
fn read_literal(s: &str, radix: u32, signed: bool) -> (r: Result<(bool, u128), ParseError>)
    requires
        2 <= radix <= 36,
    ensures
        match parse_outcome(s@, radix, signed) {
            Ok(v) => r is Ok && r->Ok_0.0 == is_negative(s@, signed) && v == if r->Ok_0.0 {
                -(r->Ok_0.1 as int)
            } else {
                r->Ok_0.1 as int
            },
            Err(e) => r == Err::<(bool, u128), ParseError>(e),
        },
        r is Ok ==> r->Ok_0.1 <= magnitude_limit(s@, signed),
{
    let mut it = s.chars();
    proof {
        axiom_spec_iter(s);
    }
    let ghost before = it;
    let first = it.next();
    proof {
        next_postcondition(&before, &it, first);
    }
    match first {
        None => Err(ParseError::Empty),
        Some(c) => {
            let negative: bool = signed && c == '-';
            let limit: u128 = if !signed {
                u128::MAX
            } else if negative {
                0x8000_0000_0000_0000_0000_0000_0000_0000u128
            } else {
                0x7fff_ffff_ffff_ffff_ffff_ffff_ffff_ffffu128
            };
            match scan_digits(s, c == '+' || negative, radix, limit, negative) {
                Ok(m) => Ok((negative, m)),
                Err(e) => Err(e),
            }
        },
    }
}

impl Const {
    /// Parses an unsigned literal: an optional `+`, then digits of the radix.
    /// The result is always of the unsigned variant.
    ///
    /// Fails on the empty string, on a character that is no digit of the radix
    /// (a `-` among them), on a sign that stands alone, and on a number above
    /// `2^128 - 1`. The radix must lie between 2 and 36.
    pub fn from_str_radix(s: &str, radix: u32) -> (r: Result<Const, ParseError>)
        requires
            2 <= radix <= 36,
        ensures
            r == parsed(s@, radix, false),
            r is Ok <==> is_literal(s@, radix, false) && in_range(
                literal_value(s@, radix, false),
                false,
            ),
            r is Ok ==> r->Ok_0 is Unsigned && r->Ok_0.magnitude() == literal_value(
                s@,
                radix,
                false,
            ),
    {
        proof {
            lemma_parse_outcome(s@, radix, false);
        }
        match read_literal(s, radix, false) {
            Ok((_, m)) => Ok(Const::Unsigned(m)),
            Err(e) => Err(e),
        }
    }

    /// Parses a signed literal: an optional `+` or `-`, then digits of the
    /// radix. The result is always of the signed variant.
    ///
    /// Fails on the empty string, on a character that is no digit of the
    /// radix, on a sign that stands alone, and on a number outside
    /// `[-2^127, 2^127 - 1]`. The radix must lie between 2 and 36.
    pub fn from_str_signed_radix(s: &str, radix: u32) -> (r: Result<Const, ParseError>)
        requires
            2 <= radix <= 36,
        ensures
            r == parsed(s@, radix, true),
            r is Ok <==> is_literal(s@, radix, true) && in_range(
                literal_value(s@, radix, true),
                true,
            ),
            r is Ok ==> r->Ok_0 is Signed && r->Ok_0.magnitude() == literal_value(s@, radix, true),
    {
        proof {
            lemma_parse_outcome(s@, radix, true);
        }
        match read_literal(s, radix, true) {
            Ok((negative, m)) => {
                if !negative {
                    Ok(Const::Signed(m as i128))
                } else if m == 0x8000_0000_0000_0000_0000_0000_0000_0000u128 {
                    Ok(Const::Signed(i128::MIN))
                } else {
                    Ok(Const::Signed(-(m as i128)))
                }
            },
            Err(e) => Err(e),
        }
    }
}

} // verus!
