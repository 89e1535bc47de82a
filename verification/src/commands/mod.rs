//! One module per command.
pub mod check_workspace;
pub mod draft_release;
pub mod release_laws;
pub mod release_utils;
pub mod sync_repos;
