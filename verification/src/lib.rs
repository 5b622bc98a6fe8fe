//! Selection of dirty hypothesis-state records after a trigger change, and the
//! harness jobs and run report that the selection produces.
pub mod args;
pub mod error;
pub mod frame;
pub mod ids;
pub mod json;
pub mod keys;
pub mod path_validation;
pub mod planning;
pub mod text;
pub mod triggers;
pub mod types;
