//! Command-line arguments: parsing and validation.
pub mod flags;
pub mod help;
pub mod parse;
pub mod payload;
pub mod s3;
pub mod scalar;
