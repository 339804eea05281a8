//! Constants as text: a label for the variant, then the magnitude in
//! decimal between round brackets.

use crate::base::arith::Const;
use vstd::prelude::*;

verus! {

/// `String::push` appends the one character `c` to the end of the string
/// and changes nothing else of it.
pub assume_specification[ String::push ](s: &mut String, c: char)
    ensures
        final(s)@ == old(s)@.push(c),
;

/// The character that writes the digit `d`: `0`-`9`, then the lower-case
/// letters from `a` for ten.
pub open spec fn digit_char(d: nat) -> char {
    if d < 10 {
        ('0' as int + d) as char
    } else {
        ('a' as int + d - 10) as char
    }
}

/// The digits of `n` in the given radix, most significant first, with no
/// leading zero; zero is the one digit `0`.
pub open spec fn radix_digits(n: nat, radix: u32) -> Seq<char>
    decreases n,
    via radix_digits_terminates
{
    if radix < 2 || n < radix {
        seq![digit_char(n)]
    } else {
        radix_digits(n / (radix as nat), radix).push(digit_char(n % (radix as nat)))
    }
}

#[via_fn]
proof fn radix_digits_terminates(n: nat, radix: u32) {
    if radix >= 2 && n >= radix {
        assert(n / (radix as nat) < n) by (nonlinear_arith)
            requires
                radix >= 2,
                n >= radix,
        ;
    }
}

/// The digits of `v` in the given radix, behind a minus sign where `v` is
/// negative.
pub open spec fn signed_digits(v: int, radix: u32) -> Seq<char> {
    if v < 0 {
        seq!['-'] + radix_digits((-v) as nat, radix)
    } else {
        radix_digits(v as nat, radix)
    }
}

impl Const {
    /// The magnitude written in the given radix, behind a minus sign where
    /// it is negative.
    pub open spec fn digits(self, radix: u32) -> Seq<char> {
        match self {
            Const::Unsigned(x) => radix_digits(x as nat, radix),
            Const::Signed(x) => signed_digits(x as int, radix),
        }
    }

    /// The text of the value: `U96(` for an unsigned and `I96(` for a signed
    /// value, the magnitude in decimal, and `)`. The label reads 96 whatever
    /// the width of the magnitude.
    pub open spec fn rendering(self) -> Seq<char> {
        match self {
            Const::Unsigned(_) => seq!['U', '9', '6', '('] + self.digits(10) + seq![')'],
            Const::Signed(_) => seq!['I', '9', '6', '('] + self.digits(10) + seq![')'],
        }
    }

    /// Renders the value as text.
    pub fn to_string(&self) -> (r: String)
        ensures
            r@ == self.rendering(),
    {
        let mut out = String::new();
        match *self {
            Const::Unsigned(x) => {
                out.push('U');
                out.push('9');
                out.push('6');
                out.push('(');
                push_decimal(&mut out, x);
            },
            Const::Signed(x) => {
                out.push('I');
                out.push('9');
                out.push('6');
                out.push('(');
                if x < 0 {
                    out.push('-');
                    let m: u128 = if x == i128::MIN {
                        0x8000_0000_0000_0000_0000_0000_0000_0000u128
                    } else {
                        (-x) as u128
                    };
                    push_decimal(&mut out, m);
                } else {
                    push_decimal(&mut out, x as u128);
                }
            },
        }
        out.push(')');
        assert(out@ == self.rendering());
        out
    }
}

/// Appends the decimal digits of `n` to `out`.
fn push_decimal(out: &mut String, n: u128)
    ensures
        final(out)@ == old(out)@ + radix_digits(n as nat, 10),
{
    let mut low_first: Vec<char> = Vec::new();
    let mut rest: u128 = n;
    while rest >= 10
        invariant
            radix_digits(n as nat, 10) == radix_digits(rest as nat, 10) + low_first@.reverse(),
        decreases rest,
    {
        let d: u8 = (rest % 10) as u8;
        let ghost before = low_first@;
        low_first.push((48u8 + d) as char);
        rest = rest / 10;
        proof {
            assert(low_first@.reverse() == seq![digit_char(d as nat)] + before.reverse());
        }
    }
    low_first.push((48u8 + rest as u8) as char);
    proof {
        assert(low_first@.reverse() == radix_digits(n as nat, 10));
    }
    let mut i: usize = low_first.len();
    while i > 0
        invariant
            i <= low_first.len(),
            low_first@.reverse() == radix_digits(n as nat, 10),
            out@ == old(out)@ + low_first@.reverse().take(low_first.len() - i),
        decreases i,
    {
        i = i - 1;
        out.push(low_first[i]);
        proof {
            let whole = low_first@.reverse();
            let k = low_first.len() - i;
            assert(whole.take(k) == whole.take(k - 1).push(whole[k - 1]));
        }
    }
    proof {
        let whole = low_first@.reverse();
        assert(whole.take(whole.len() as int) == whole);
    }
}

} // verus!
