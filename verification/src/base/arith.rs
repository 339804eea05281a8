//! The constant type, the integer model its contracts are stated over, the
//! two readings of its bit pattern, and field extraction.

use crate::base::bits::{
    lemma_and_low_mask_signed, lemma_and_low_mask_unsigned, lemma_one_shl, lemma_pow2_below_width,
    lemma_signed_as_unsigned, lemma_unsigned_as_signed,
};
use crate::base::field::FieldSelector;
use vstd::arithmetic::power2::pow2;
use vstd::prelude::*;

verus! {

/// Two to the power 128: the number of distinct 128-bit patterns.
pub open spec fn two_pow_128() -> int {
    0x1_0000_0000_0000_0000_0000_0000_0000_0000int
}

/// Two to the power 127: the first magnitude whose top bit is set.
pub open spec fn two_pow_127() -> int {
    0x8000_0000_0000_0000_0000_0000_0000_0000int
}

/// The unsigned reading of the low 128 bits of `x`: its residue modulo 2^128.
pub open spec fn wrap_unsigned(x: int) -> int {
    x % two_pow_128()
}

/// The two's-complement reading of the low 128 bits of `x`: the one integer
/// in `[-2^127, 2^127)` that is congruent to `x` modulo 2^128.
pub open spec fn wrap_signed(x: int) -> int {
    let r = x % two_pow_128();
    if r >= two_pow_127() {
        r - two_pow_128()
    } else {
        r
    }
}

/// `x` clamped into the unsigned range `[0, 2^128 - 1]`.
pub open spec fn clamp_unsigned(x: int) -> int {
    if x < 0 {
        0
    } else if x >= two_pow_128() {
        two_pow_128() - 1
    } else {
        x
    }
}

/// `x` clamped into the signed range `[-2^127, 2^127 - 1]`.
pub open spec fn clamp_signed(x: int) -> int {
    if x < -two_pow_127() {
        -two_pow_127()
    } else if x >= two_pow_127() {
        two_pow_127() - 1
    } else {
        x
    }
}

/// The absolute value of `x`.
pub open spec fn magnitude_abs(x: int) -> int {
    if x < 0 {
        -x
    } else {
        x
    }
}

/// The quotient of `x` by `y`, rounded towards zero.
pub open spec fn trunc_div(x: int, y: int) -> int {
    let q = magnitude_abs(x) / magnitude_abs(y);
    if (x < 0) != (y < 0) {
        -q
    } else {
        q
    }
}

/// The remainder that goes with `trunc_div`: it has the sign of `x`.
pub open spec fn trunc_rem(x: int, y: int) -> int {
    let r = magnitude_abs(x) % magnitude_abs(y);
    if x < 0 {
        -r
    } else {
        r
    }
}

/// A constant of at most 128 bits, tagged with the numeric domain in which
/// its bit pattern is read. The tag is fixed when the value is made; every
/// operation returns a new value.
#[derive(Clone, Copy, Debug, PartialEq, Structural)]
pub enum Const {
    /// A magnitude read as an unsigned integer of 128 bits.
    Unsigned(u128),
    /// A magnitude read as a two's-complement integer of 128 bits. A signed
    /// value has no width of its own below 128 bits.
    Signed(i128),
}

impl Const {
    /// The stored magnitude as a mathematical integer.
    pub open spec fn magnitude(self) -> int {
        match self {
            Const::Unsigned(x) => x as int,
            Const::Signed(x) => x as int,
        }
    }

    /// Whether `self` and `other` are of the same variant.
    pub open spec fn same_domain(self, other: Const) -> bool {
        (self is Unsigned) == (other is Unsigned)
    }

    /// Whether `m` is a magnitude that the variant of `self` can hold.
    pub open spec fn in_domain(self, m: int) -> bool {
        match self {
            Const::Unsigned(_) => 0 <= m < two_pow_128(),
            Const::Signed(_) => -two_pow_127() <= m < two_pow_127(),
        }
    }

    /// `m` clamped into the range of the variant of `self`.
    pub open spec fn clamp(self, m: int) -> int {
        match self {
            Const::Unsigned(_) => clamp_unsigned(m),
            Const::Signed(_) => clamp_signed(m),
        }
    }

    /// The low 128 bits of `m`, read in the domain of the variant of `self`.
    pub open spec fn wrap(self, m: int) -> int {
        match self {
            Const::Unsigned(_) => wrap_unsigned(m),
            Const::Signed(_) => wrap_signed(m),
        }
    }

    /// The value whose variant is that of `self` and whose magnitude is `m`,
    /// for an `m` that the variant can hold.
    pub open spec fn with_magnitude(self, m: int) -> Const
        recommends
            self.in_domain(m),
    {
        match self {
            Const::Unsigned(_) => Const::Unsigned(m as u128),
            Const::Signed(_) => Const::Signed(m as i128),
        }
    }

    /// The bit pattern read as an unsigned integer. A negative signed value
    /// is read as its two's-complement pattern, not as its absolute value.
    pub open spec fn unsigned_bits(self) -> int {
        wrap_unsigned(self.magnitude())
    }

    /// The bit pattern read as a two's-complement integer. An unsigned value
    /// with the top bit set is read as negative.
    pub open spec fn signed_bits(self) -> int {
        wrap_signed(self.magnitude())
    }

    /// The right-hand operand of a binary operator, read in the domain of
    /// the left-hand operand `self`.
    pub open spec fn operand(self, rhs: Const) -> int {
        match self {
            Const::Unsigned(_) => rhs.unsigned_bits(),
            Const::Signed(_) => rhs.signed_bits(),
        }
    }

    /// The field that `f` selects, by the mask of `f.length - 1` low bits:
    /// the magnitude shifted down by `f.offset` bit positions, then reduced
    /// modulo `2^(f.length - 1)`.
    pub open spec fn field(self, f: FieldSelector) -> Const {
        self.with_magnitude(
            (self.magnitude() / (pow2(f.offset as nat) as int)) % (pow2((f.length - 1) as nat) as int),
        )
    }

    /// Whether the stored magnitude is zero, in either domain.
    pub fn is_zero(&self) -> (r: bool)
        ensures
            r == (self.magnitude() == 0),
            r == (*self == Const::Unsigned(0) || *self == Const::Signed(0)),
    {
        match self {
            Const::Unsigned(x) => *x == 0,
            Const::Signed(x) => *x == 0,
        }
    }

    /// Reads the bit pattern as a 128-bit unsigned integer. No range check is
    /// made: a negative signed value `x` comes back as `x + 2^128`.
    pub fn as_u128(self) -> (r: u128)
        ensures
            r == self.unsigned_bits(),
            self is Unsigned ==> r == self.magnitude(),
            self is Signed && self.magnitude() >= 0 ==> r == self.magnitude(),
            self is Signed && self.magnitude() < 0 ==> r == self.magnitude() + two_pow_128(),
    {
        match self {
            Const::Unsigned(x) => x,
            Const::Signed(x) => {
                proof {
                    lemma_signed_as_unsigned(x);
                }
                x as u128
            },
        }
    }

    /// Reads the bit pattern as a 128-bit two's-complement integer. No range
    /// check is made: an unsigned value `x` with the top bit set comes back
    /// as `x - 2^128`.
    pub fn as_i128(self) -> (r: i128)
        ensures
            r == self.signed_bits(),
            self is Signed ==> r == self.magnitude(),
            self is Unsigned && self.magnitude() < two_pow_127() ==> r == self.magnitude(),
            self is Unsigned && self.magnitude() >= two_pow_127() ==> r == self.magnitude()
                - two_pow_128(),
    {
        match self {
            Const::Unsigned(x) => {
                proof {
                    lemma_unsigned_as_signed(x);
                }
                x as i128
            },
            Const::Signed(x) => x,
        }
    }

    /// Extracts the field that `f` selects: the value shifted right by
    /// `f.offset`, then masked with `2^(f.length - 1) - 1`.
    ///
    /// Beware: the mask is built from `f.length - 1`, not from `f.length`. A
    /// field declared with `n` bits yields its `n - 1` low bits only, so an
    /// 8-bit field of `0xFF` is `0x7F`. Encodings rely on this formula as it
    /// stands.
    ///
    /// The variant is kept. On a signed value the shift is arithmetic and the
    /// result is never negative.
    ///
    /// The offset must be below 128 and the length between 1 and 128. That
    /// the field ends within the 128 bits is not asked: what lies beyond the
    /// top reads as zero bits on an unsigned value and as copies of the sign
    /// bit on a signed one.
    pub fn apply(self, f: FieldSelector) -> (r: Const)
        requires
            f.offset < 128,
            1 <= f.length <= 128,
        ensures
            r == self.field(f),
            r.same_domain(self),
            r.magnitude() == (self.magnitude() / (pow2(f.offset as nat) as int)) % (pow2(
                (f.length - 1) as nat,
            ) as int),
            0 <= r.magnitude() < pow2((f.length - 1) as nat),
    {
        let width: u8 = f.length - 1;
        proof {
            lemma_one_shl(width);
        }
        let mask: u128 = (1u128 << width) - 1;
        let shifted: Const = self >> f.offset;
        let r: Const = shifted & Const::from(mask);
        proof {
            let d = pow2(width as nat) as int;
            lemma_pow2_below_width(width as nat);
            vstd::arithmetic::div_mod::lemma_mod_bound(shifted.magnitude(), d);
            assert(shifted.operand(Const::Unsigned(mask)) == mask);
            match shifted {
                Const::Unsigned(x) => {
                    lemma_and_low_mask_unsigned(x, width);
                    assert(r == Const::Unsigned(x & mask));
                },
                Const::Signed(x) => {
                    lemma_and_low_mask_signed(x, width);
                    assert(r == Const::Signed(x & (mask as i128)));
                },
            }
            assert(r.magnitude() == shifted.magnitude() % d);
        }
        r
    }
}

} // verus!
