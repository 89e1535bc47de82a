//! What can go wrong with a draft release.
use vstd::prelude::*;

verus! {

/// Why a draft release is not made.
#[derive(Debug, Clone, PartialEq, Eq)]
pub enum DraftError {
    /// The id or the key of the GitHub application is not given.
    NoCredentials,
    /// Neither a version nor a tag is given.
    NoVersion,
    /// The tag needs a package name and none is given.
    NoPackageName,
    /// The release of the tag could not be fetched.
    FetchFailed { tag: String, message: String },
    /// The releases could not be listed.
    ListFailed { message: String },
    /// The releases after the first page could not be listed.
    PagingFailed { message: String },
    /// The draft could not be created.
    CreateFailed { tag: String, message: String },
    /// The artifacts could not be uploaded.
    UploadFailed { tag: String, message: String },
    /// A reply that does not answer the request that was made.
    UnexpectedReply,
}

/// The message of an error.
pub open spec fn error_text(error: DraftError) -> Seq<char> {
    match error {
        DraftError::NoCredentials =>
            "--github-app-id and --github-app-private-key are required"@,
        DraftError::NoVersion => "--version or --release-tag is required"@,
        DraftError::NoPackageName =>
            "--package-name is required when --tag-format contains {package_name}"@,
        DraftError::FetchFailed { tag, message } => "Failed to fetch release for tag: "@ + tag@,
        DraftError::ListFailed { message } => "Failed to list releases to find draft"@,
        DraftError::PagingFailed { message } => "Failed to paginate releases to find draft"@,
        DraftError::CreateFailed { tag, message } =>
            "Failed to create draft release for tag: "@ + tag@,
        DraftError::UploadFailed { tag, message } =>
            "Failed to upload artifacts to release "@ + tag@,
        DraftError::UnexpectedReply => "The reply does not answer the request"@,
    }
}

impl DraftError {
    /// The message of the error.
    pub fn to_string(&self) -> (r: String)
        ensures
            r@ == error_text(*self),
    {
        match self {
            DraftError::NoCredentials =>
                "--github-app-id and --github-app-private-key are required".to_owned(),
            DraftError::NoVersion => "--version or --release-tag is required".to_owned(),
            DraftError::NoPackageName =>
                "--package-name is required when --tag-format contains {package_name}".to_owned(),
            DraftError::FetchFailed { tag, .. } =>
                "Failed to fetch release for tag: ".to_owned().concat(tag.as_str()),
            DraftError::ListFailed { .. } => "Failed to list releases to find draft".to_owned(),
            DraftError::PagingFailed { .. } =>
                "Failed to paginate releases to find draft".to_owned(),
            DraftError::CreateFailed { tag, .. } =>
                "Failed to create draft release for tag: ".to_owned().concat(tag.as_str()),
            DraftError::UploadFailed { tag, .. } =>
                "Failed to upload artifacts to release ".to_owned().concat(tag.as_str()),
            DraftError::UnexpectedReply => "The reply does not answer the request".to_owned(),
        }
    }
}

/// The message of an error names the tag, as it is given; what the server said is not part of it.
pub proof fn errors_name_the_tag(tag: String, message: String)
    ensures
        error_text(DraftError::FetchFailed { tag, message })
            == "Failed to fetch release for tag: "@ + tag@,
        error_text(DraftError::CreateFailed { tag, message })
            == "Failed to create draft release for tag: "@ + tag@,
        error_text(DraftError::UploadFailed { tag, message })
            == "Failed to upload artifacts to release "@ + tag@,
        error_text(DraftError::ListFailed { message }) == "Failed to list releases to find draft"@,
        error_text(DraftError::PagingFailed { message })
            == "Failed to paginate releases to find draft"@,
{
}

} // verus!
