//! Decomposition of an integer into its decimal digits and recomposition of
//! decimal digits into an integer, together with the mathematical model that
//! both directions are specified against and the round-trip laws relating
//! them.

use crate::digit_int::DigitInt;
use crate::error::ConversionError;
use vstd::arithmetic::div_mod::{
    lemma_div_decreases, lemma_div_pos_is_pos, lemma_fundamental_div_mod,
    lemma_fundamental_div_mod_converse, lemma_mod_pos_bound,
};
use vstd::prelude::*;

verus! {

/// The message carried by the error that a negative input produces.
pub open spec fn negative_input_message() -> Seq<char> {
    "unable to convert from negative integer to digits"@
}

/// The decimal digits of a non-negative integer `n`, most-significant first.
/// Zero decomposes to the one-element sequence holding a single zero.
pub open spec fn digits_of(n: int) -> Seq<int>
    decreases n,
    when n >= 0
    via digits_of_decreases
{
    if n < 10 {
        seq![n]
    } else {
        digits_of(n / 10).push(n % 10)
    }
}

#[via_fn]
proof fn digits_of_decreases(n: int) {
    if n >= 10 {
        lemma_div_pos_is_pos(n, 10);
        lemma_div_decreases(n, 10);
    }
}

/// The integer that the decimal digits `ds` denote, most-significant first.
/// The empty sequence denotes zero.
pub open spec fn value_of(ds: Seq<int>) -> int
    decreases ds.len(),
{
    if ds.len() == 0 {
        0
    } else {
        value_of(ds.drop_last()) * 10 + ds.last()
    }
}

/// The mathematical values of a sequence of digit elements.
pub open spec fn int_view<T: DigitInt>(s: Seq<T>) -> Seq<int> {
    s.map_values(|t: T| t.as_int())
}

/// Every element of `ds` is a single decimal digit.
pub open spec fn all_digits(ds: Seq<int>) -> bool {
    forall|i: int| 0 <= i < ds.len() ==> 0 <= #[trigger] ds[i] <= 9
}

/// A one-element digit sequence denotes its single digit.
pub proof fn lemma_value_of_singleton(d: int)
    ensures
        value_of(seq![d]) == d,
{
    assert(seq![d].drop_last() =~= Seq::<int>::empty());
    assert(value_of(Seq::<int>::empty()) == 0);
    assert(seq![d].last() == d);
}

/// The decomposition of a non-negative integer is never empty, holds single
/// decimal digits only, and has no leading zero unless it is the single-zero
/// sequence.
pub proof fn lemma_digits_of_properties(n: int)
    requires
        n >= 0,
    ensures
        digits_of(n).len() >= 1,
        all_digits(digits_of(n)),
        n >= 1 ==> digits_of(n)[0] >= 1,
        digits_of(n).len() > 1 ==> digits_of(n)[0] >= 1,
    decreases n,
{
    if n < 10 {
        assert(digits_of(n) =~= seq![n]);
    } else {
        lemma_div_pos_is_pos(n, 10);
        lemma_div_decreases(n, 10);
        lemma_mod_pos_bound(n, 10);
        lemma_fundamental_div_mod(n, 10);
        lemma_digits_of_properties(n / 10);
        assert(n / 10 >= 1);
        assert(digits_of(n) == digits_of(n / 10).push(n % 10));
        assert(digits_of(n)[0] == digits_of(n / 10)[0]);
        assert forall|i: int| 0 <= i < digits_of(n).len() implies 0 <= #[trigger] digits_of(
            n,
        )[i] <= 9 by {
            if i < digits_of(n / 10).len() {
                assert(digits_of(n)[i] == digits_of(n / 10)[i]);
            }
        }
    }
}

/// Round-trip law: recomposing the decomposition of any non-negative
/// integer gives that integer back.
pub proof fn lemma_value_of_digits_of(n: int)
    requires
        n >= 0,
    ensures
        value_of(digits_of(n)) == n,
    decreases n,
{
    if n < 10 {
        assert(digits_of(n) =~= seq![n]);
        lemma_value_of_singleton(n);
    } else {
        lemma_div_pos_is_pos(n, 10);
        lemma_div_decreases(n, 10);
        lemma_value_of_digits_of(n / 10);
        let ds = digits_of(n / 10).push(n % 10);
        assert(ds.drop_last() =~= digits_of(n / 10));
        assert(ds.last() == n % 10);
        lemma_fundamental_div_mod(n, 10);
    }
}

/// The value denoted by a sequence of decimal digits is never negative.
pub proof fn lemma_value_of_nonneg(ds: Seq<int>)
    requires
        all_digits(ds),
    ensures
        value_of(ds) >= 0,
    decreases ds.len(),
{
    if ds.len() > 0 {
        assert(all_digits(ds.drop_last())) by {
            assert(forall|i: int|
                0 <= i < ds.drop_last().len() ==> ds.drop_last()[i] == ds[i]);
        }
        lemma_value_of_nonneg(ds.drop_last());
    }
}

/// A digit sequence with a non-zero leading digit denotes a positive value.
pub proof fn lemma_value_of_first_pos(ds: Seq<int>)
    requires
        all_digits(ds),
        ds.len() >= 1,
        ds[0] >= 1,
    ensures
        value_of(ds) >= 1,
    decreases ds.len(),
{
    if ds.len() == 1 {
        assert(ds =~= seq![ds[0]]);
        lemma_value_of_singleton(ds[0]);
    } else {
        let t = ds.drop_last();
        assert(all_digits(t)) by {
            assert(forall|i: int| 0 <= i < t.len() ==> t[i] == ds[i]);
        }
        assert(t[0] == ds[0]);
        lemma_value_of_first_pos(t);
    }
}

/// Round-trip law: decomposing the value denoted by a digit sequence gives
/// that sequence back, provided the sequence is non-empty, holds single
/// decimal digits only, and has no leading zero except as the single-zero
/// sequence itself.
pub proof fn lemma_digits_of_value_of(ds: Seq<int>)
    requires
        all_digits(ds),
        ds.len() >= 1,
        ds.len() > 1 ==> ds[0] != 0,
    ensures
        digits_of(value_of(ds)) == ds,
    decreases ds.len(),
{
    if ds.len() == 1 {
        assert(ds =~= seq![ds[0]]);
        lemma_value_of_singleton(ds[0]);
        assert(digits_of(ds[0]) =~= ds);
    } else {
        let t = ds.drop_last();
        let x = ds.last();
        assert(all_digits(t)) by {
            assert(forall|i: int| 0 <= i < t.len() ==> t[i] == ds[i]);
        }
        assert(t[0] == ds[0]);
        lemma_value_of_first_pos(t);
        lemma_digits_of_value_of(t);
        let v = value_of(ds);
        assert(v == value_of(t) * 10 + x);
        assert(v >= 10) by {
            assert(value_of(t) * 10 >= 10) by (nonlinear_arith)
                requires
                    value_of(t) >= 1,
            ;
        }
        lemma_fundamental_div_mod_converse(v, 10, value_of(t), x);
        assert(digits_of(v) == digits_of(v / 10).push(v % 10));
        assert(digits_of(v) =~= ds);
    }
}

/// Round-trip law for any supported integer type: the decomposition of a
/// non-negative value `n` meets recomposition's contract — single decimal
/// digits denoting a value within the type's bound — and recomposes to
/// exactly `n`.
pub proof fn lemma_round_trip<T: DigitInt>(n: T)
    requires
        n.as_int() >= 0,
    ensures
        all_digits(digits_of(n.as_int())),
        value_of(digits_of(n.as_int())) <= T::max_spec(),
        value_of(digits_of(n.as_int())) == n.as_int(),
{
    lemma_digits_of_properties(n.as_int());
    lemma_value_of_digits_of(n.as_int());
    n.lemma_in_range();
}

/// The value of a prefix of a digit sequence is at most the value of the
/// whole sequence, and never negative.
pub proof fn lemma_value_of_prefix_le(ds: Seq<int>, k: int)
    requires
        all_digits(ds),
        0 <= k <= ds.len(),
    ensures
        0 <= value_of(ds.take(k)) <= value_of(ds),
    decreases ds.len() - k,
{
    assert(all_digits(ds.take(k))) by {
        assert(forall|i: int| 0 <= i < k ==> ds.take(k)[i] == ds[i]);
    }
    lemma_value_of_nonneg(ds.take(k));
    if k == ds.len() {
        assert(ds.take(k) =~= ds);
    } else {
        assert(ds.take(k + 1).drop_last() =~= ds.take(k));
        assert(ds.take(k + 1).last() == ds[k]);
        assert(value_of(ds.take(k + 1)) == value_of(ds.take(k)) * 10 + ds[k]);
        lemma_value_of_prefix_le(ds, k + 1);
    }
}

/// Decompose `n` into its decimal digits, most-significant first.
///
/// Every non-negative input succeeds and yields exactly the digit sequence
/// of the model; every negative input fails with the fixed message.
pub fn digits_from_int<T: DigitInt>(n: T) -> (r: Result<Vec<T>, ConversionError>)
    ensures
        match r {
            Ok(v) => n.as_int() >= 0 && int_view(v@) == digits_of(n.as_int()),
            Err(e) => n.as_int() < 0 && e@ == negative_input_message(),
        },
{
    if n.is_negative() {
        return Err(
            ConversionError::new("unable to convert from negative integer to digits"),
        );
    }
    let mut rem = n;
    let mut v: Vec<T> = Vec::new();
    proof {
        assert(int_view(v@) =~= Seq::<int>::empty());
        assert(digits_of(n.as_int()) =~= digits_of(rem.as_int()) + int_view(v@));
    }
    loop
        invariant
            rem.as_int() >= 0,
            digits_of(n.as_int()) == digits_of(rem.as_int()) + int_view(v@),
        ensures
            0 <= rem.as_int() < 10,
            digits_of(n.as_int()) == digits_of(rem.as_int()) + int_view(v@),
        decreases rem.as_int(),
    {
        let q = rem.div_ten();
        proof {
            lemma_div_pos_is_pos(rem.as_int(), 10);
            lemma_mod_pos_bound(rem.as_int(), 10);
            lemma_fundamental_div_mod(rem.as_int(), 10);
        }
        if q.is_zero() {
            break;
        }
        let d = rem.mod_ten();
        let ghost v_before = v@;
        v.insert(0, d);
        proof {
            assert(rem.as_int() >= 10);
            lemma_div_decreases(rem.as_int(), 10);
            assert(digits_of(rem.as_int()) == digits_of(q.as_int()).push(d.as_int()));
            assert(int_view(v@) =~= seq![d.as_int()] + int_view(v_before));
            assert(digits_of(q.as_int()) + int_view(v@) =~= digits_of(rem.as_int()) + int_view(
                v_before,
            ));
        }
        rem = q;
    }
    let ghost v_before = v@;
    v.insert(0, rem);
    proof {
        assert(digits_of(rem.as_int()) =~= seq![rem.as_int()]);
        assert(int_view(v@) =~= seq![rem.as_int()] + int_view(v_before));
        assert(int_view(v@) =~= digits_of(n.as_int()));
    }
    Ok(v)
}

/// Recompose a sequence of decimal digits, most-significant first, into the
/// integer they denote.
///
/// The caller must hand over single decimal digits whose denoted value fits
/// in `T`; malformed digits and overflow are ruled out by contract rather
/// than detected at run time.
pub fn int_from_digits<T: DigitInt>(v: Vec<T>) -> (r: T)
    requires
        all_digits(int_view(v@)),
        value_of(int_view(v@)) <= T::max_spec(),
    ensures
        r.as_int() == value_of(int_view(v@)),
{
    let mut number = T::small(0);
    let mut i: usize = 0;
    proof {
        assert(int_view(v@).take(0) =~= Seq::<int>::empty());
    }
    while i < v.len()
        invariant
            i <= v@.len(),
            all_digits(int_view(v@)),
            value_of(int_view(v@)) <= T::max_spec(),
            number.as_int() == value_of(int_view(v@).take(i as int)),
            number.as_int() >= 0,
        decreases v@.len() - i,
    {
        let ghost ds = int_view(v@);
        proof {
            assert(ds.take(i as int + 1).drop_last() =~= ds.take(i as int));
            assert(ds.take(i as int + 1).last() == ds[i as int]);
            assert(value_of(ds.take(i as int + 1)) == value_of(ds.take(i as int)) * 10 + ds[i as int]);
            lemma_value_of_prefix_le(ds, i as int + 1);
            assert(ds[i as int] == v@[i as int].as_int());
        }
        number = number.mul_ten_add(v[i]);
        i = i + 1;
    }
    proof {
        assert(int_view(v@).take(i as int) =~= int_view(v@));
    }
    number
}

} // verus!
