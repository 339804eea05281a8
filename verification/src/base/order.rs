//! The order of constants. Two values of one variant are ordered by
//! magnitude. Values of different variants are not compared by magnitude:
//! every unsigned value comes before every signed one. To compare across
//! variants by number, read one of the two in the other's domain first.

use crate::base::arith::Const;
use core::cmp::Ordering;
use vstd::prelude::*;
use vstd::std_specs::cmp::PartialOrdSpecImpl;

verus! {

impl PartialOrdSpecImpl for Const {
    open spec fn obeys_partial_cmp_spec() -> bool {
        true
    }

    open spec fn partial_cmp_spec(&self, other: &Const) -> Option<Ordering> {
        if self is Unsigned && other is Signed {
            Some(Ordering::Less)
        } else if self is Signed && other is Unsigned {
            Some(Ordering::Greater)
        } else if self.magnitude() < other.magnitude() {
            Some(Ordering::Less)
        } else if self.magnitude() > other.magnitude() {
            Some(Ordering::Greater)
        } else {
            Some(Ordering::Equal)
        }
    }
}

impl PartialOrd for Const {
    /// Always `Some`: by magnitude within a variant, unsigned before signed
    /// across variants.
    fn partial_cmp(&self, other: &Const) -> (r: Option<Ordering>) {
        match (*self, *other) {
            (Const::Unsigned(a), Const::Unsigned(b)) => {
                if a < b {
                    Some(Ordering::Less)
                } else if a > b {
                    Some(Ordering::Greater)
                } else {
                    Some(Ordering::Equal)
                }
            },
            (Const::Signed(a), Const::Signed(b)) => {
                if a < b {
                    Some(Ordering::Less)
                } else if a > b {
                    Some(Ordering::Greater)
                } else {
                    Some(Ordering::Equal)
                }
            },
            (Const::Unsigned(_), Const::Signed(_)) => Some(Ordering::Less),
            (Const::Signed(_), Const::Unsigned(_)) => Some(Ordering::Greater),
        }
    }
}

} // verus!
