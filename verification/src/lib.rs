//! Polyndrome validation.
//!
//! A polyndrome is an odd-length string of at least three characters that is
//! symmetric about its center index, the center character itself being exempt
//! from the symmetry check. The library offers a scan that finds the first
//! index at which a character differs from its mirror-position counterpart,
//! and a validator that classifies a string as a polyndrome or reports why it
//! is not one. Strings are measured and indexed by character throughout.

pub mod validator;
