//! Decomposition of IEEE-754 binary32 bit patterns into sign, exponent and
//! mantissa, the exact real-number meaning of each field, and their product.
//!
//! Every real number here is held exactly, as a significand times a power of
//! two, so that decoding and recomposing can be stated and proved without
//! rounding.

pub mod dyadic;
pub mod binary32;
