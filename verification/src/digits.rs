//! A cursor wrapper over a decomposed digit sequence: single-pass forward
//! iteration, with read-only access to the backing sequence that leaves the
//! cursor untouched.

use crate::convert::{digits_from_int, digits_of, int_view};
use crate::digit_int::DigitInt;
use vstd::prelude::*;

verus! {

/// The digit sequence of an integer, most-significant digit first, together
/// with a cursor for single-pass forward iteration.
///
/// The cursor only moves forward; once it reaches the end, the instance is
/// exhausted for good. The backing sequence can be inspected at any time
/// without disturbing the cursor.
pub struct Digits<T: DigitInt> {
    values: Vec<T>,
    index: usize,
}

impl<T: DigitInt> View for Digits<T> {
    type V = Seq<int>;

    closed spec fn view(&self) -> Seq<int> {
        int_view(self.values@)
    }
}

impl<T: DigitInt> Digits<T> {
    /// The cursor position: how many digits have been handed out so far.
    pub closed spec fn pos(&self) -> int {
        self.index as int
    }

    #[verifier::type_invariant]
    spec fn cursor_in_bounds(&self) -> bool {
        self.index <= self.values@.len()
    }

    /// Decompose a non-negative integer into its digit sequence and place
    /// the cursor before the first digit.
    ///
    /// Negative inputs are ruled out by contract: a caller that cannot
    /// guarantee non-negativity must go through `digits_from_int` instead.
    pub fn from(i: T) -> (r: Self)
        requires
            i.as_int() >= 0,
        ensures
            r@ == digits_of(i.as_int()),
            r.pos() == 0,
    {
        match digits_from_int(i) {
            Ok(values) => Self { values, index: 0 },
            Err(_) => vstd::pervasive::unreached(),
        }
    }

    /// Hand out the digit under the cursor and advance the cursor, or
    /// report exhaustion once the cursor has reached the end.
    pub fn next(&mut self) -> (r: Option<T>)
        ensures
            final(self)@ == old(self)@,
            old(self).pos() < old(self)@.len() ==> {
                &&& final(self).pos() == old(self).pos() + 1
                &&& (r matches Some(d) && d.as_int() == old(self)@[old(self).pos()])
            },
            old(self).pos() >= old(self)@.len() ==> {
                &&& final(self).pos() == old(self).pos()
                &&& r is None
            },
    {
        proof {
            use_type_invariant(&*self);
        }
        if self.index >= self.values.len() {
            return None;
        }
        self.index = self.index + 1;
        Some(self.values[self.index - 1])
    }

    /// The number of digits in the backing sequence.
    pub fn len(&self) -> (r: usize)
        ensures
            r == self@.len(),
    {
        self.values.len()
    }

    /// Whether some digit of the backing sequence holds the value `d`,
    /// regardless of the cursor position.
    pub fn contains(&self, d: T) -> (r: bool)
        ensures
            r == self@.contains(d.as_int()),
    {
        let mut i: usize = 0;
        while i < self.values.len()
            invariant
                i <= self.values@.len(),
                forall|j: int| 0 <= j < i ==> self@[j] != d.as_int(),
            decreases self.values@.len() - i,
        {
            if self.values[i].eq_value(d) {
                proof {
                    assert(self@[i as int] == d.as_int());
                }
                return true;
            }
            i = i + 1;
        }
        proof {
            assert(forall|j: int| 0 <= j < self@.len() ==> self@[j] != d.as_int());
            assert(!self@.contains(d.as_int()));
        }
        false
    }

    /// Read-only access to the backing digit sequence, independent of the
    /// cursor.
    pub fn as_vec(&self) -> (r: &Vec<T>)
        ensures
            int_view(r@) == self@,
    {
        &self.values
    }
}

} // verus!
