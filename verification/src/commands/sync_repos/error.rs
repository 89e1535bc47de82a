//! What can go wrong in a sync.
use vstd::prelude::*;

verus! {

/// The TOML documents that a sync reads.
#[derive(Debug, Clone, Copy, PartialEq, Eq, Structural)]
pub enum TomlInput {
    /// The `Cargo.toml` of one application.
    AppManifest,
    /// The root `Cargo.toml` of the source.
    SourceManifest,
    /// The root `Cargo.toml` of the target.
    TargetManifest,
    /// The `.cargo/config.toml` of the target.
    CargoConfig,
}

/// Why a sync stops.
#[derive(Debug, Clone, PartialEq, Eq)]
pub enum SyncError {
    /// A document is not TOML; the message is that of the parser.
    BadToml { input: TomlInput, message: String },
    /// The root `Cargo.toml` of the source, read for its version from that path, is not TOML.
    BadVersionToml { path: String, message: String },
    /// `registries` is there but is not a table.
    RegistriesNotTable,
    /// The source has no `workspace.package.version`.
    NoWorkspaceVersion,
    /// A command ran and reported failure.
    CommandFailed { message: String },
    /// An action could not be performed; the context says which.
    ActionFailed { context: String, message: String },
    /// A reply that does not answer the request that was made.
    UnexpectedReply,
}

/// The message of an error.
pub open spec fn error_text(error: SyncError) -> Seq<char> {
    match error {
        SyncError::BadToml { input: TomlInput::AppManifest, message } =>
            "Failed to parse TOML for strip_path_from_deps"@,
        SyncError::BadToml { input: TomlInput::SourceManifest, message } =>
            "Failed to parse source Cargo.toml"@,
        SyncError::BadToml { input: TomlInput::TargetManifest, message } =>
            "Failed to parse destination Cargo.toml"@,
        SyncError::BadToml { input: TomlInput::CargoConfig, message } =>
            "Failed to parse Cargo config TOML"@,
        SyncError::BadVersionToml { path, message } => "Failed to parse "@ + path@,
        SyncError::RegistriesNotTable => "[registries] is not a table"@,
        SyncError::NoWorkspaceVersion =>
            "No [workspace.package.version] found in source Cargo.toml"@,
        SyncError::CommandFailed { message } => message@,
        SyncError::ActionFailed { context, message } => context@,
        SyncError::UnexpectedReply => "The reply does not answer the request"@,
    }
}

impl SyncError {
    /// The message of the error.
    pub fn to_string(&self) -> (r: String)
        ensures
            r@ == error_text(*self),
    {
        match self {
            SyncError::BadToml { input: TomlInput::AppManifest, .. } =>
                "Failed to parse TOML for strip_path_from_deps".to_owned(),
            SyncError::BadToml { input: TomlInput::SourceManifest, .. } =>
                "Failed to parse source Cargo.toml".to_owned(),
            SyncError::BadToml { input: TomlInput::TargetManifest, .. } =>
                "Failed to parse destination Cargo.toml".to_owned(),
            SyncError::BadToml { input: TomlInput::CargoConfig, .. } =>
                "Failed to parse Cargo config TOML".to_owned(),
            SyncError::BadVersionToml { path, .. } => "Failed to parse ".to_owned().concat(
                path.as_str(),
            ),
            SyncError::RegistriesNotTable => "[registries] is not a table".to_owned(),
            SyncError::NoWorkspaceVersion =>
                "No [workspace.package.version] found in source Cargo.toml".to_owned(),
            SyncError::CommandFailed { message } => message.clone(),
            SyncError::ActionFailed { context, .. } => context.clone(),
            SyncError::UnexpectedReply => "The reply does not answer the request".to_owned(),
        }
    }
}

/// The message of an error names the document, the path, or what was tried, as it is given; what
/// a parser or the system said is not part of it.
pub proof fn errors_name_what_failed(path: String, message: String, context: String)
    ensures
        error_text(SyncError::BadVersionToml { path, message }) == "Failed to parse "@ + path@,
        error_text(SyncError::CommandFailed { message }) == message@,
        error_text(SyncError::ActionFailed { context, message }) == context@,
        error_text(SyncError::BadToml { input: TomlInput::AppManifest, message })
            == "Failed to parse TOML for strip_path_from_deps"@,
        error_text(SyncError::BadToml { input: TomlInput::SourceManifest, message })
            == "Failed to parse source Cargo.toml"@,
        error_text(SyncError::BadToml { input: TomlInput::TargetManifest, message })
            == "Failed to parse destination Cargo.toml"@,
        error_text(SyncError::BadToml { input: TomlInput::CargoConfig, message })
            == "Failed to parse Cargo config TOML"@,
{
}

} // verus!
