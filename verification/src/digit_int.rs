//! The arithmetic interface that digit decomposition and recomposition need
//! from an integer type, together with its implementations for the 8-, 16-,
//! 32- and 64-bit signed and unsigned types.

use vstd::prelude::*;

verus! {

/// An integer type whose values can be taken apart into decimal digits and
/// put back together. `as_int` is the mathematical value of an element;
/// every other member is specified in terms of it.
pub trait DigitInt: Copy + Sized {
    /// The mathematical value of this element.
    spec fn as_int(self) -> int;

    /// The largest value the type can hold.
    spec fn max_spec() -> int;

    /// Every value of the type lies within the type's stated bound.
    proof fn lemma_in_range(self)
        ensures
            self.as_int() <= Self::max_spec();

    /// The element standing for a single decimal digit `d`.
    fn small(d: u8) -> (r: Self)
        requires
            d <= 9,
        ensures
            r.as_int() == d as int;

    /// Whether this element is below zero.
    fn is_negative(self) -> (r: bool)
        ensures
            r == (self.as_int() < 0);

    /// Whether this element is exactly zero.
    fn is_zero(self) -> (r: bool)
        ensures
            r == (self.as_int() == 0);

    /// The quotient of a non-negative element by ten.
    fn div_ten(self) -> (r: Self)
        requires
            self.as_int() >= 0,
        ensures
            r.as_int() == self.as_int() / 10;

    /// The remainder of a non-negative element by ten.
    fn mod_ten(self) -> (r: Self)
        requires
            self.as_int() >= 0,
        ensures
            r.as_int() == self.as_int() % 10;

    /// One positional step of recomposition: shift the accumulator one
    /// decimal place and add the digit `d`.
    fn mul_ten_add(self, d: Self) -> (r: Self)
        requires
            self.as_int() >= 0,
            0 <= d.as_int() <= 9,
            self.as_int() * 10 + d.as_int() <= Self::max_spec(),
        ensures
            r.as_int() == self.as_int() * 10 + d.as_int();

    /// Whether two elements hold the same value.
    fn eq_value(self, other: Self) -> (r: bool)
        ensures
            r == (self.as_int() == other.as_int());
}

impl DigitInt for u8 {
    open spec fn as_int(self) -> int {
        self as int
    }

    open spec fn max_spec() -> int {
        u8::MAX as int
    }

    proof fn lemma_in_range(self) {
    }

    fn small(d: u8) -> (r: Self) {
        d
    }

    fn is_negative(self) -> (r: bool) {
        false
    }

    fn is_zero(self) -> (r: bool) {
        self == 0
    }

    fn div_ten(self) -> (r: Self) {
        self / 10
    }

    fn mod_ten(self) -> (r: Self) {
        self % 10
    }

    fn mul_ten_add(self, d: Self) -> (r: Self) {
        self * 10 + d
    }

    fn eq_value(self, other: Self) -> (r: bool) {
        self == other
    }
}

impl DigitInt for u16 {
    open spec fn as_int(self) -> int {
        self as int
    }

    open spec fn max_spec() -> int {
        u16::MAX as int
    }

    proof fn lemma_in_range(self) {
    }

    fn small(d: u8) -> (r: Self) {
        d as u16
    }

    fn is_negative(self) -> (r: bool) {
        false
    }

    fn is_zero(self) -> (r: bool) {
        self == 0
    }

    fn div_ten(self) -> (r: Self) {
        self / 10
    }

    fn mod_ten(self) -> (r: Self) {
        self % 10
    }

    fn mul_ten_add(self, d: Self) -> (r: Self) {
        self * 10 + d
    }

    fn eq_value(self, other: Self) -> (r: bool) {
        self == other
    }
}

impl DigitInt for u32 {
    open spec fn as_int(self) -> int {
        self as int
    }

    open spec fn max_spec() -> int {
        u32::MAX as int
    }

    proof fn lemma_in_range(self) {
    }

    fn small(d: u8) -> (r: Self) {
        d as u32
    }

    fn is_negative(self) -> (r: bool) {
        false
    }

    fn is_zero(self) -> (r: bool) {
        self == 0
    }

    fn div_ten(self) -> (r: Self) {
        self / 10
    }

    fn mod_ten(self) -> (r: Self) {
        self % 10
    }

    fn mul_ten_add(self, d: Self) -> (r: Self) {
        self * 10 + d
    }

    fn eq_value(self, other: Self) -> (r: bool) {
        self == other
    }
}

impl DigitInt for u64 {
    open spec fn as_int(self) -> int {
        self as int
    }

    open spec fn max_spec() -> int {
        u64::MAX as int
    }

    proof fn lemma_in_range(self) {
    }

    fn small(d: u8) -> (r: Self) {
        d as u64
    }

    fn is_negative(self) -> (r: bool) {
        false
    }

    fn is_zero(self) -> (r: bool) {
        self == 0
    }

    fn div_ten(self) -> (r: Self) {
        self / 10
    }

    fn mod_ten(self) -> (r: Self) {
        self % 10
    }

    fn mul_ten_add(self, d: Self) -> (r: Self) {
        self * 10 + d
    }

    fn eq_value(self, other: Self) -> (r: bool) {
        self == other
    }
}

impl DigitInt for i8 {
    open spec fn as_int(self) -> int {
        self as int
    }

    open spec fn max_spec() -> int {
        i8::MAX as int
    }

    proof fn lemma_in_range(self) {
    }

    fn small(d: u8) -> (r: Self) {
        d as i8
    }

    fn is_negative(self) -> (r: bool) {
        self < 0
    }

    fn is_zero(self) -> (r: bool) {
        self == 0
    }

    fn div_ten(self) -> (r: Self) {
        self / 10
    }

    fn mod_ten(self) -> (r: Self) {
        self % 10
    }

    fn mul_ten_add(self, d: Self) -> (r: Self) {
        self * 10 + d
    }

    fn eq_value(self, other: Self) -> (r: bool) {
        self == other
    }
}

impl DigitInt for i16 {
    open spec fn as_int(self) -> int {
        self as int
    }

    open spec fn max_spec() -> int {
        i16::MAX as int
    }

    proof fn lemma_in_range(self) {
    }

    fn small(d: u8) -> (r: Self) {
        d as i16
    }

    fn is_negative(self) -> (r: bool) {
        self < 0
    }

    fn is_zero(self) -> (r: bool) {
        self == 0
    }

    fn div_ten(self) -> (r: Self) {
        self / 10
    }

    fn mod_ten(self) -> (r: Self) {
        self % 10
    }

    fn mul_ten_add(self, d: Self) -> (r: Self) {
        self * 10 + d
    }

    fn eq_value(self, other: Self) -> (r: bool) {
        self == other
    }
}

impl DigitInt for i32 {
    open spec fn as_int(self) -> int {
        self as int
    }

    open spec fn max_spec() -> int {
        i32::MAX as int
    }

    proof fn lemma_in_range(self) {
    }

    fn small(d: u8) -> (r: Self) {
        d as i32
    }

    fn is_negative(self) -> (r: bool) {
        self < 0
    }

    fn is_zero(self) -> (r: bool) {
        self == 0
    }

    fn div_ten(self) -> (r: Self) {
        self / 10
    }

    fn mod_ten(self) -> (r: Self) {
        self % 10
    }

    fn mul_ten_add(self, d: Self) -> (r: Self) {
        self * 10 + d
    }

    fn eq_value(self, other: Self) -> (r: bool) {
        self == other
    }
}

impl DigitInt for i64 {
    open spec fn as_int(self) -> int {
        self as int
    }

    open spec fn max_spec() -> int {
        i64::MAX as int
    }

    proof fn lemma_in_range(self) {
    }

    fn small(d: u8) -> (r: Self) {
        d as i64
    }

    fn is_negative(self) -> (r: bool) {
        self < 0
    }

    fn is_zero(self) -> (r: bool) {
        self == 0
    }

    fn div_ten(self) -> (r: Self) {
        self / 10
    }

    fn mod_ten(self) -> (r: Self) {
        self % 10
    }

    fn mul_ten_add(self, d: Self) -> (r: Self) {
        self * 10 + d
    }

    fn eq_value(self, other: Self) -> (r: bool) {
        self == other
    }
}

} // verus!
