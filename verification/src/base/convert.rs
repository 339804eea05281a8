//! Constants from the machine integers. Every conversion is total: an
//! unsigned source is zero-extended into the unsigned variant, a signed
//! source is sign-extended into the signed variant, so the magnitude is the
//! source's value.

use crate::base::arith::Const;
use vstd::prelude::*;
use vstd::std_specs::convert::FromSpecImpl;

verus! {

impl FromSpecImpl<u8> for Const {
    open spec fn obeys_from_spec() -> bool {
        true
    }

    open spec fn from_spec(x: u8) -> Const {
        Const::Unsigned(x as u128)
    }
}

impl From<u8> for Const {
    fn from(x: u8) -> (r: Const)
        ensures
            r is Unsigned,
            r.magnitude() == x,
    {
        Const::Unsigned(x as u128)
    }
}

impl FromSpecImpl<u16> for Const {
    open spec fn obeys_from_spec() -> bool {
        true
    }

    open spec fn from_spec(x: u16) -> Const {
        Const::Unsigned(x as u128)
    }
}

impl From<u16> for Const {
    fn from(x: u16) -> (r: Const)
        ensures
            r is Unsigned,
            r.magnitude() == x,
    {
        Const::Unsigned(x as u128)
    }
}

impl FromSpecImpl<u32> for Const {
    open spec fn obeys_from_spec() -> bool {
        true
    }

    open spec fn from_spec(x: u32) -> Const {
        Const::Unsigned(x as u128)
    }
}

impl From<u32> for Const {
    fn from(x: u32) -> (r: Const)
        ensures
            r is Unsigned,
            r.magnitude() == x,
    {
        Const::Unsigned(x as u128)
    }
}

impl FromSpecImpl<u64> for Const {
    open spec fn obeys_from_spec() -> bool {
        true
    }

    open spec fn from_spec(x: u64) -> Const {
        Const::Unsigned(x as u128)
    }
}

impl From<u64> for Const {
    fn from(x: u64) -> (r: Const)
        ensures
            r is Unsigned,
            r.magnitude() == x,
    {
        Const::Unsigned(x as u128)
    }
}

impl FromSpecImpl<u128> for Const {
    open spec fn obeys_from_spec() -> bool {
        true
    }

    open spec fn from_spec(x: u128) -> Const {
        Const::Unsigned(x)
    }
}

impl From<u128> for Const {
    fn from(x: u128) -> (r: Const)
        ensures
            r is Unsigned,
            r.magnitude() == x,
    {
        Const::Unsigned(x)
    }
}

impl FromSpecImpl<i8> for Const {
    open spec fn obeys_from_spec() -> bool {
        true
    }

    open spec fn from_spec(x: i8) -> Const {
        Const::Signed(x as i128)
    }
}

impl From<i8> for Const {
    fn from(x: i8) -> (r: Const)
        ensures
            r is Signed,
            r.magnitude() == x,
    {
        Const::Signed(x as i128)
    }
}

impl FromSpecImpl<i16> for Const {
    open spec fn obeys_from_spec() -> bool {
        true
    }

    open spec fn from_spec(x: i16) -> Const {
        Const::Signed(x as i128)
    }
}

impl From<i16> for Const {
    fn from(x: i16) -> (r: Const)
        ensures
            r is Signed,
            r.magnitude() == x,
    {
        Const::Signed(x as i128)
    }
}

impl FromSpecImpl<i32> for Const {
    open spec fn obeys_from_spec() -> bool {
        true
    }

    open spec fn from_spec(x: i32) -> Const {
        Const::Signed(x as i128)
    }
}

impl From<i32> for Const {
    fn from(x: i32) -> (r: Const)
        ensures
            r is Signed,
            r.magnitude() == x,
    {
        Const::Signed(x as i128)
    }
}

impl FromSpecImpl<i64> for Const {
    open spec fn obeys_from_spec() -> bool {
        true
    }

    open spec fn from_spec(x: i64) -> Const {
        Const::Signed(x as i128)
    }
}

impl From<i64> for Const {
    fn from(x: i64) -> (r: Const)
        ensures
            r is Signed,
            r.magnitude() == x,
    {
        Const::Signed(x as i128)
    }
}

impl FromSpecImpl<i128> for Const {
    open spec fn obeys_from_spec() -> bool {
        true
    }

    open spec fn from_spec(x: i128) -> Const {
        Const::Signed(x)
    }
}

impl From<i128> for Const {
    fn from(x: i128) -> (r: Const)
        ensures
            r is Signed,
            r.magnitude() == x,
    {
        Const::Signed(x)
    }
}

} // verus!
