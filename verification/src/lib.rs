//! The decisions behind a release and repository maintenance command line.
//!
//! Every function here works on plain values: it says which commands to run, which
//! files to write and what they hold. Running the commands is left to the program
//! around the library.
pub mod cli_args;
pub mod commands;
pub mod paths;
pub mod text;
pub mod text_laws;
pub mod utils;
