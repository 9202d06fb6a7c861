//! A pairing-based vector commitment scheme over BLS12-381.
//!
//! A vector of byte-string values is compressed into one constant-size
//! commitment; a constant-size proof opens one index to one value, and both
//! commitment and proof admit constant-time updates when a single value
//! changes. The scheme is driven by a structured reference string: two
//! ladders of powers of a secret trapdoor in each source group, with a
//! deliberate gap at one exponent that exists only as a pairing-target
//! element.
pub mod commit;
pub mod consistency;
pub mod curve;
pub mod errors;
pub mod paramgen;
pub mod precomp;
pub mod prove;
pub mod params;
pub mod update;
