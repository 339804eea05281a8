//! The operators on constants. A binary operator works in the domain of its
//! left operand: the right operand's bit pattern is first read in that
//! domain, and the result has the left operand's variant.

use crate::base::arith::{magnitude_abs, trunc_div, trunc_rem, two_pow_127, Const};
use crate::base::bits::{lemma_shl_signed, lemma_shl_unsigned, lemma_shr_signed, lemma_shr_unsigned};
use core::ops::{Div, Rem};
use vstd::arithmetic::power2::pow2;
use vstd::prelude::*;
use vstd::std_specs::ops::{
    AddSpecImpl, BitAndSpecImpl, BitOrSpecImpl, BitXorSpecImpl, DivSpecImpl, MulSpecImpl,
    NegSpecImpl, RemSpecImpl, ShlSpecImpl, ShrSpecImpl, SubSpecImpl,
};

verus! {

/// Division of non-negative integers: the quotient does not exceed the
/// dividend, a negated divisor negates it, and the remainder is unchanged.
proof fn lemma_div_of_magnitudes(a: int, d: int)
    by (nonlinear_arith)
    requires
        a >= 0,
        d > 0,
    ensures
        0 <= a / d <= a,
        d >= 2 && a > 0 ==> a / d < a,
        0 <= a % d < d,
        a / (-d) == -(a / d),
        a % (-d) == a % d,
{
}

impl Const {
    /// The bitwise AND of the pattern of `self` and that of `rhs`, in the
    /// variant of `self`.
    pub open spec fn and_of(self, rhs: Const) -> Const {
        match self {
            Const::Unsigned(x) => Const::Unsigned(x & (rhs.unsigned_bits() as u128)),
            Const::Signed(x) => Const::Signed(x & (rhs.signed_bits() as i128)),
        }
    }

    /// The bitwise OR of the pattern of `self` and that of `rhs`, in the
    /// variant of `self`.
    pub open spec fn or_of(self, rhs: Const) -> Const {
        match self {
            Const::Unsigned(x) => Const::Unsigned(x | (rhs.unsigned_bits() as u128)),
            Const::Signed(x) => Const::Signed(x | (rhs.signed_bits() as i128)),
        }
    }

    /// The bitwise XOR of the pattern of `self` and that of `rhs`, in the
    /// variant of `self`.
    pub open spec fn xor_of(self, rhs: Const) -> Const {
        match self {
            Const::Unsigned(x) => Const::Unsigned(x ^ (rhs.unsigned_bits() as u128)),
            Const::Signed(x) => Const::Signed(x ^ (rhs.signed_bits() as i128)),
        }
    }
}

impl AddSpecImpl for Const {
    open spec fn obeys_add_spec() -> bool {
        true
    }

    open spec fn add_req(self, rhs: Const) -> bool {
        true
    }

    open spec fn add_spec(self, rhs: Const) -> Const {
        self.with_magnitude(self.clamp(self.magnitude() + self.operand(rhs)))
    }
}

impl core::ops::Add for Const {
    type Output = Const;

    /// The sum, clamped to the largest or smallest value of the left
    /// operand's domain where it would leave that domain.
    fn add(self, rhs: Const) -> (r: Const)
        ensures
            r.same_domain(self),
            r.magnitude() == self.clamp(self.magnitude() + self.operand(rhs)),
    {
        match self {
            Const::Unsigned(x) => Const::Unsigned(x.saturating_add(rhs.as_u128())),
            Const::Signed(x) => {
                let y: i128 = rhs.as_i128();
                match x.checked_add(y) {
                    Some(v) => Const::Signed(v),
                    None => if y < 0 {
                        Const::Signed(i128::MIN)
                    } else {
                        Const::Signed(i128::MAX)
                    },
                }
            },
        }
    }
}

impl SubSpecImpl for Const {
    open spec fn obeys_sub_spec() -> bool {
        true
    }

    open spec fn sub_req(self, rhs: Const) -> bool {
        true
    }

    open spec fn sub_spec(self, rhs: Const) -> Const {
        self.with_magnitude(self.clamp(self.magnitude() - self.operand(rhs)))
    }
}

impl core::ops::Sub for Const {
    type Output = Const;

    /// The difference, clamped to the largest or smallest value of the left
    /// operand's domain where it would leave that domain.
    fn sub(self, rhs: Const) -> (r: Const)
        ensures
            r.same_domain(self),
            r.magnitude() == self.clamp(self.magnitude() - self.operand(rhs)),
    {
        match self {
            Const::Unsigned(x) => Const::Unsigned(x.saturating_sub(rhs.as_u128())),
            Const::Signed(x) => {
                let y: i128 = rhs.as_i128();
                match x.checked_sub(y) {
                    Some(v) => Const::Signed(v),
                    None => if y < 0 {
                        Const::Signed(i128::MAX)
                    } else {
                        Const::Signed(i128::MIN)
                    },
                }
            },
        }
    }
}

impl MulSpecImpl for Const {
    open spec fn obeys_mul_spec() -> bool {
        true
    }

    open spec fn mul_req(self, rhs: Const) -> bool {
        true
    }

    open spec fn mul_spec(self, rhs: Const) -> Const {
        self.with_magnitude(self.wrap(self.magnitude() * self.operand(rhs)))
    }
}

impl core::ops::Mul for Const {
    type Output = Const;

    /// The low 128 bits of the product, read in the left operand's domain.
    /// Unlike the sum, the product is not clamped.
    fn mul(self, rhs: Const) -> (r: Const)
        ensures
            r.same_domain(self),
            r.magnitude() == self.wrap(self.magnitude() * self.operand(rhs)),
    {
        match self {
            Const::Unsigned(x) => Const::Unsigned(x.wrapping_mul(rhs.as_u128())),
            Const::Signed(x) => Const::Signed(x.wrapping_mul(rhs.as_i128())),
        }
    }
}

impl DivSpecImpl for Const {
    open spec fn obeys_div_spec() -> bool {
        true
    }

    open spec fn div_req(self, rhs: Const) -> bool {
        rhs.magnitude() != 0
    }

    open spec fn div_spec(self, rhs: Const) -> Const {
        self.with_magnitude(self.wrap(trunc_div(self.magnitude(), self.operand(rhs))))
    }
}

impl core::ops::Div for Const {
    type Output = Const;

    /// The quotient rounded towards zero, in the left operand's domain. The
    /// divisor must not be zero. The one quotient that leaves the signed
    /// domain, that of the smallest signed value by minus one, wraps to the
    /// smallest signed value.
    fn div(self, rhs: Const) -> (r: Const)
        ensures
            r.same_domain(self),
            r.magnitude() == self.wrap(trunc_div(self.magnitude(), self.operand(rhs))),
    {
        match self {
            Const::Unsigned(x) => {
                let y: u128 = rhs.as_u128();
                proof {
                    lemma_div_of_magnitudes(x as int, y as int);
                    assert(trunc_div(x as int, y as int) == x / y);
                    assert(self.operand(rhs) == y);
                }
                Const::Unsigned(x / y)
            },
            Const::Signed(x) => {
                let y: i128 = rhs.as_i128();
                proof {
                    lemma_div_of_magnitudes(magnitude_abs(x as int), magnitude_abs(y as int));
                }
                if y == -1 {
                    if x == i128::MIN {
                        Const::Signed(i128::MIN)
                    } else {
                        Const::Signed(-x)
                    }
                } else {
                    Const::Signed(x.div(y))
                }
            },
        }
    }
}

impl RemSpecImpl for Const {
    open spec fn obeys_rem_spec() -> bool {
        true
    }

    open spec fn rem_req(self, rhs: Const) -> bool {
        rhs.magnitude() != 0
    }

    open spec fn rem_spec(self, rhs: Const) -> Const {
        self.with_magnitude(trunc_rem(self.magnitude(), self.operand(rhs)))
    }
}

impl core::ops::Rem for Const {
    type Output = Const;

    /// The remainder of the division rounded towards zero, in the left
    /// operand's domain: it has the sign of the dividend. The divisor must
    /// not be zero.
    fn rem(self, rhs: Const) -> (r: Const)
        ensures
            r.same_domain(self),
            r.magnitude() == trunc_rem(self.magnitude(), self.operand(rhs)),
    {
        match self {
            Const::Unsigned(x) => {
                let y: u128 = rhs.as_u128();
                proof {
                    lemma_div_of_magnitudes(x as int, y as int);
                }
                Const::Unsigned(x % y)
            },
            Const::Signed(x) => {
                let y: i128 = rhs.as_i128();
                proof {
                    lemma_div_of_magnitudes(magnitude_abs(x as int), magnitude_abs(y as int));
                }
                if y == -1 {
                    Const::Signed(0)
                } else {
                    Const::Signed(x.rem(y))
                }
            },
        }
    }
}

impl NegSpecImpl for Const {
    open spec fn obeys_neg_spec() -> bool {
        true
    }

    open spec fn neg_req(self) -> bool {
        self.signed_bits() != -two_pow_127()
    }

    open spec fn neg_spec(self) -> Const {
        Const::Signed((-self.signed_bits()) as i128)
    }
}

impl core::ops::Neg for Const {
    type Output = Const;

    /// The negation of the two's-complement reading; the result is always
    /// signed. The smallest signed value has no negation in 128 bits and is
    /// not accepted, nor is the unsigned value `2^127`, which reads as it.
    fn neg(self) -> (r: Const)
        ensures
            r is Signed,
            r.magnitude() == -self.signed_bits(),
    {
        let x: i128 = self.as_i128();
        Const::Signed(-x)
    }
}

impl ShrSpecImpl<u8> for Const {
    open spec fn obeys_shr_spec() -> bool {
        true
    }

    open spec fn shr_req(self, rhs: u8) -> bool {
        rhs < 128
    }

    open spec fn shr_spec(self, rhs: u8) -> Const {
        self.with_magnitude(self.magnitude() / (pow2(rhs as nat) as int))
    }
}

impl core::ops::Shr<u8> for Const {
    type Output = Const;

    /// The magnitude divided by `2^rhs` and rounded down: a logical shift
    /// of an unsigned value, an arithmetic one of a signed value. The shift
    /// amount must be below 128.
    fn shr(self, rhs: u8) -> (r: Const)
        ensures
            r.same_domain(self),
            r.magnitude() == self.magnitude() / (pow2(rhs as nat) as int),
    {
        match self {
            Const::Unsigned(x) => {
                proof {
                    lemma_shr_unsigned(x, rhs);
                }
                Const::Unsigned(x >> rhs)
            },
            Const::Signed(x) => {
                proof {
                    lemma_shr_signed(x, rhs);
                }
                Const::Signed(x >> rhs)
            },
        }
    }
}

impl ShlSpecImpl<u8> for Const {
    open spec fn obeys_shl_spec() -> bool {
        true
    }

    open spec fn shl_req(self, rhs: u8) -> bool {
        rhs < 128
    }

    open spec fn shl_spec(self, rhs: u8) -> Const {
        self.with_magnitude(self.wrap(self.magnitude() * pow2(rhs as nat)))
    }
}

impl core::ops::Shl<u8> for Const {
    type Output = Const;

    /// The low 128 bits of the magnitude times `2^rhs`, read in the domain
    /// of `self`: bits shifted past the top are lost. The shift amount must
    /// be below 128.
    fn shl(self, rhs: u8) -> (r: Const)
        ensures
            r.same_domain(self),
            r.magnitude() == self.wrap(self.magnitude() * pow2(rhs as nat)),
    {
        match self {
            Const::Unsigned(x) => {
                proof {
                    lemma_shl_unsigned(x, rhs);
                }
                Const::Unsigned(x << rhs)
            },
            Const::Signed(x) => {
                proof {
                    lemma_shl_signed(x, rhs);
                }
                Const::Signed(x << rhs)
            },
        }
    }
}

impl BitAndSpecImpl for Const {
    open spec fn obeys_bitand_spec() -> bool {
        true
    }

    open spec fn bitand_req(self, rhs: Const) -> bool {
        true
    }

    open spec fn bitand_spec(self, rhs: Const) -> Const {
        self.and_of(rhs)
    }
}

impl core::ops::BitAnd for Const {
    type Output = Const;

    /// The bitwise AND of the two 128-bit patterns.
    fn bitand(self, rhs: Const) -> (r: Const)
        ensures
            r == self.and_of(rhs),
            r.same_domain(self),
    {
        match self {
            Const::Unsigned(x) => Const::Unsigned(x & rhs.as_u128()),
            Const::Signed(x) => Const::Signed(x & rhs.as_i128()),
        }
    }
}

impl BitOrSpecImpl for Const {
    open spec fn obeys_bitor_spec() -> bool {
        true
    }

    open spec fn bitor_req(self, rhs: Const) -> bool {
        true
    }

    open spec fn bitor_spec(self, rhs: Const) -> Const {
        self.or_of(rhs)
    }
}

impl core::ops::BitOr for Const {
    type Output = Const;

    /// The bitwise OR of the two 128-bit patterns.
    fn bitor(self, rhs: Const) -> (r: Const)
        ensures
            r == self.or_of(rhs),
            r.same_domain(self),
    {
        match self {
            Const::Unsigned(x) => Const::Unsigned(x | rhs.as_u128()),
            Const::Signed(x) => Const::Signed(x | rhs.as_i128()),
        }
    }
}

impl BitXorSpecImpl for Const {
    open spec fn obeys_bitxor_spec() -> bool {
        true
    }

    open spec fn bitxor_req(self, rhs: Const) -> bool {
        true
    }

    open spec fn bitxor_spec(self, rhs: Const) -> Const {
        self.xor_of(rhs)
    }
}

impl core::ops::BitXor for Const {
    type Output = Const;

    /// The bitwise XOR of the two 128-bit patterns.
    fn bitxor(self, rhs: Const) -> (r: Const)
        ensures
            r == self.xor_of(rhs),
            r.same_domain(self),
    {
        match self {
            Const::Unsigned(x) => Const::Unsigned(x ^ rhs.as_u128()),
            Const::Signed(x) => Const::Signed(x ^ rhs.as_i128()),
        }
    }
}

} // verus!
