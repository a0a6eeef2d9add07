//! The numeric contract: what a type must offer to take part in
//! validation. An implementing type has explicit zero and one identities,
//! a not-a-number predicate (constantly false for integer types), and a
//! total order on a specification-level key.

use crate::numeric::Value;
use crate::numeric::SCALE;
use vstd::prelude::*;

verus! {

/// Zero and one identities.
pub trait OneZero: Sized {
    /// Whether a value is the zero identity.
    spec fn spec_is_zero(&self) -> bool;

    /// Whether a value is the one identity.
    spec fn spec_is_one(&self) -> bool;

    /// Returns the zero identity.
    fn zero() -> (r: Self)
        ensures
            r.spec_is_zero(),
    ;

    /// Returns the one identity.
    fn one() -> (r: Self)
        ensures
            r.spec_is_one(),
    ;
}

/// Not-a-number detection.
pub trait Nanish {
    /// Whether a value is not a number.
    spec fn spec_is_nan(&self) -> bool;

    /// Tests whether a value is not a number.
    fn is_it_nan(&self) -> (r: bool)
        ensures
            r == self.spec_is_nan(),
    ;
}

/// The full numeric contract: identities, not-a-number detection, and a
/// total order given by a specification-level integer key.
pub trait Numberish: OneZero + Nanish + Copy {
    /// The integer key that orders values of this type.
    spec fn ord_key(&self) -> int;

    /// Strict order on the integer keys.
    fn lt_num(&self, other: &Self) -> (r: bool)
        ensures
            r == (self.ord_key() < other.ord_key()),
    ;
}

impl OneZero for i8 {
    open spec fn spec_is_zero(&self) -> bool {
        *self == 0
    }

    open spec fn spec_is_one(&self) -> bool {
        *self == 1
    }

    fn zero() -> Self {
        0
    }

    fn one() -> Self {
        1
    }
}

impl Nanish for i8 {
    open spec fn spec_is_nan(&self) -> bool {
        false
    }

    fn is_it_nan(&self) -> bool {
        false
    }
}

impl Numberish for i8 {
    open spec fn ord_key(&self) -> int {
        *self as int
    }

    fn lt_num(&self, other: &Self) -> bool {
        *self < *other
    }
}

impl OneZero for i16 {
    open spec fn spec_is_zero(&self) -> bool {
        *self == 0
    }

    open spec fn spec_is_one(&self) -> bool {
        *self == 1
    }

    fn zero() -> Self {
        0
    }

    fn one() -> Self {
        1
    }
}

impl Nanish for i16 {
    open spec fn spec_is_nan(&self) -> bool {
        false
    }

    fn is_it_nan(&self) -> bool {
        false
    }
}

impl Numberish for i16 {
    open spec fn ord_key(&self) -> int {
        *self as int
    }

    fn lt_num(&self, other: &Self) -> bool {
        *self < *other
    }
}

impl OneZero for i32 {
    open spec fn spec_is_zero(&self) -> bool {
        *self == 0
    }

    open spec fn spec_is_one(&self) -> bool {
        *self == 1
    }

    fn zero() -> Self {
        0
    }

    fn one() -> Self {
        1
    }
}

impl Nanish for i32 {
    open spec fn spec_is_nan(&self) -> bool {
        false
    }

    fn is_it_nan(&self) -> bool {
        false
    }
}

impl Numberish for i32 {
    open spec fn ord_key(&self) -> int {
        *self as int
    }

    fn lt_num(&self, other: &Self) -> bool {
        *self < *other
    }
}

impl OneZero for i64 {
    open spec fn spec_is_zero(&self) -> bool {
        *self == 0
    }

    open spec fn spec_is_one(&self) -> bool {
        *self == 1
    }

    fn zero() -> Self {
        0
    }

    fn one() -> Self {
        1
    }
}

impl Nanish for i64 {
    open spec fn spec_is_nan(&self) -> bool {
        false
    }

    fn is_it_nan(&self) -> bool {
        false
    }
}

impl Numberish for i64 {
    open spec fn ord_key(&self) -> int {
        *self as int
    }

    fn lt_num(&self, other: &Self) -> bool {
        *self < *other
    }
}

impl OneZero for i128 {
    open spec fn spec_is_zero(&self) -> bool {
        *self == 0
    }

    open spec fn spec_is_one(&self) -> bool {
        *self == 1
    }

    fn zero() -> Self {
        0
    }

    fn one() -> Self {
        1
    }
}

impl Nanish for i128 {
    open spec fn spec_is_nan(&self) -> bool {
        false
    }

    fn is_it_nan(&self) -> bool {
        false
    }
}

impl Numberish for i128 {
    open spec fn ord_key(&self) -> int {
        *self as int
    }

    fn lt_num(&self, other: &Self) -> bool {
        *self < *other
    }
}

impl OneZero for u8 {
    open spec fn spec_is_zero(&self) -> bool {
        *self == 0
    }

    open spec fn spec_is_one(&self) -> bool {
        *self == 1
    }

    fn zero() -> Self {
        0
    }

    fn one() -> Self {
        1
    }
}

impl Nanish for u8 {
    open spec fn spec_is_nan(&self) -> bool {
        false
    }

    fn is_it_nan(&self) -> bool {
        false
    }
}

impl Numberish for u8 {
    open spec fn ord_key(&self) -> int {
        *self as int
    }

    fn lt_num(&self, other: &Self) -> bool {
        *self < *other
    }
}

impl OneZero for u16 {
    open spec fn spec_is_zero(&self) -> bool {
        *self == 0
    }

    open spec fn spec_is_one(&self) -> bool {
        *self == 1
    }

    fn zero() -> Self {
        0
    }

    fn one() -> Self {
        1
    }
}

impl Nanish for u16 {
    open spec fn spec_is_nan(&self) -> bool {
        false
    }

    fn is_it_nan(&self) -> bool {
        false
    }
}

impl Numberish for u16 {
    open spec fn ord_key(&self) -> int {
        *self as int
    }

    fn lt_num(&self, other: &Self) -> bool {
        *self < *other
    }
}

impl OneZero for u32 {
    open spec fn spec_is_zero(&self) -> bool {
        *self == 0
    }

    open spec fn spec_is_one(&self) -> bool {
        *self == 1
    }

    fn zero() -> Self {
        0
    }

    fn one() -> Self {
        1
    }
}

impl Nanish for u32 {
    open spec fn spec_is_nan(&self) -> bool {
        false
    }

    fn is_it_nan(&self) -> bool {
        false
    }
}

impl Numberish for u32 {
    open spec fn ord_key(&self) -> int {
        *self as int
    }

    fn lt_num(&self, other: &Self) -> bool {
        *self < *other
    }
}

impl OneZero for u64 {
    open spec fn spec_is_zero(&self) -> bool {
        *self == 0
    }

    open spec fn spec_is_one(&self) -> bool {
        *self == 1
    }

    fn zero() -> Self {
        0
    }

    fn one() -> Self {
        1
    }
}

impl Nanish for u64 {
    open spec fn spec_is_nan(&self) -> bool {
        false
    }

    fn is_it_nan(&self) -> bool {
        false
    }
}

impl Numberish for u64 {
    open spec fn ord_key(&self) -> int {
        *self as int
    }

    fn lt_num(&self, other: &Self) -> bool {
        *self < *other
    }
}

impl OneZero for u128 {
    open spec fn spec_is_zero(&self) -> bool {
        *self == 0
    }

    open spec fn spec_is_one(&self) -> bool {
        *self == 1
    }

    fn zero() -> Self {
        0
    }

    fn one() -> Self {
        1
    }
}

impl Nanish for u128 {
    open spec fn spec_is_nan(&self) -> bool {
        false
    }

    fn is_it_nan(&self) -> bool {
        false
    }
}

impl Numberish for u128 {
    open spec fn ord_key(&self) -> int {
        *self as int
    }

    fn lt_num(&self, other: &Self) -> bool {
        *self < *other
    }
}

impl OneZero for usize {
    open spec fn spec_is_zero(&self) -> bool {
        *self == 0
    }

    open spec fn spec_is_one(&self) -> bool {
        *self == 1
    }

    fn zero() -> Self {
        0
    }

    fn one() -> Self {
        1
    }
}

impl Nanish for usize {
    open spec fn spec_is_nan(&self) -> bool {
        false
    }

    fn is_it_nan(&self) -> bool {
        false
    }
}

impl Numberish for usize {
    open spec fn ord_key(&self) -> int {
        *self as int
    }

    fn lt_num(&self, other: &Self) -> bool {
        *self < *other
    }
}

impl OneZero for Value {
    open spec fn spec_is_zero(&self) -> bool {
        self.spec_raw() == 0 && !self.spec_is_nan()
    }

    open spec fn spec_is_one(&self) -> bool {
        self.spec_raw() == SCALE && !self.spec_is_nan()
    }

    fn zero() -> Self {
        Value::from_milli(0)
    }

    fn one() -> Self {
        Value::from_milli(SCALE)
    }
}

impl Nanish for Value {
    open spec fn spec_is_nan(&self) -> bool {
        Value::spec_is_nan(*self)
    }

    fn is_it_nan(&self) -> bool {
        Value::is_nan(self)
    }
}

impl Numberish for Value {
    open spec fn ord_key(&self) -> int {
        self.spec_raw()
    }

    fn lt_num(&self, other: &Self) -> bool {
        self.raw() < other.raw()
    }
}

} // verus!
