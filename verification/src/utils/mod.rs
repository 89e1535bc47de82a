//! Helpers.
pub mod test;
pub mod test_laws;
