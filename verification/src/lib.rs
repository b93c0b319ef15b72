//! Decimal digit decomposition and recomposition for fixed-width integers.
//!
//! The crate converts a non-negative integer into the ordered sequence of its
//! base-10 digits (most-significant first) and converts such a sequence back
//! into an integer, generically over the 8-, 16-, 32- and 64-bit signed and
//! unsigned integer types. A small cursor wrapper offers single-pass
//! iteration over a decomposed digit sequence.

pub mod convert;
pub mod digit_int;
pub mod digits;
pub mod error;
