//! What a workspace declares.
pub mod s3;
