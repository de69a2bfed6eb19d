//! Decisions of a bearing-fix solver on a spherical Earth.
//!
//! Observation points, bearing lines and every rule that accepts or refuses
//! them are stated here over the encodings of IEEE 754 binary64 numbers, so
//! that each rule is an exact statement about integers. The trigonometry
//! itself is done by the caller, who hands its results in as encodings.

pub mod binary64;
pub mod error;
pub mod point;
pub mod bearing_line;
pub mod geo_helpers;
pub mod safe_math;
