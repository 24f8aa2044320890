pub mod algorithm;
pub mod common;
