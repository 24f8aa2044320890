//! Ten-digit patient identifiers (NHS / CHI style) protected by a modulo-11
//! check digit: the checksum engine, validation of raw input, formatting and
//! generation of fresh identifiers.
pub mod algorithm;
pub mod base;
pub mod errors;
pub mod number;
pub mod nhs;
