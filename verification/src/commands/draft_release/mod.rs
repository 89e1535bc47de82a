//! Creating or updating a draft release and uploading artifacts to it.
use vstd::prelude::*;

use crate::commands::release_utils;
use crate::text;
use error::DraftError;

pub mod error;
pub mod find;
pub mod laws;

verus! {

/// Which release, and what to upload to it. The tag is `release_tag` where that is given, and
/// is made of `tag_format`, `package_name` and `version` otherwise.
#[derive(Debug, Clone)]
pub struct Options {
    pub repo_owner: String,
    pub repo_name: String,
    pub github_app_id: Option<u64>,
    pub github_app_private_key: Option<std::path::PathBuf>,
    /// Directory with the artifacts to upload.
    pub artifacts: std::path::PathBuf,
    /// The tag, used as it is.
    pub release_tag: Option<String>,
    /// Template of the tag; it may hold `{package_name}` and `{version}`.
    pub tag_format: String,
    pub package_name: String,
    pub version: String,
    /// Title of the release; the tag if there is none.
    pub release_name: Option<String>,
}

/// The release, and what was uploaded to it.
#[derive(Debug, Clone, PartialEq, Eq, Default)]
pub struct DraftReleaseResult {
    pub tag: String,
    pub release_id: u64,
    pub uploaded_assets: Vec<String>,
}

impl DraftReleaseResult {
    /// The report.
    pub open spec fn report(self) -> Seq<char> {
        "Draft release: "@ + self.tag@ + " (id="@ + text::decimal(self.release_id as nat) + ")\n"@
            + (if self.uploaded_assets@.len() == 0 {
            "  No assets uploaded.\n"@
        } else {
            "  Uploaded assets:\n"@ + text::wrapped(
                text::views(self.uploaded_assets@),
                "    - "@,
                "\n"@,
            )
        })
    }

    /// The report, one line per uploaded file.
    pub fn to_string(&self) -> (r: String)
        ensures
            r@ == self.report(),
    {
        let mut out = "Draft release: ".to_owned();
        out.append(self.tag.as_str());
        out.append(" (id=");
        out.append(text::decimal_text(self.release_id).as_str());
        out.append(")\n");
        let ghost head = out@;
        if self.uploaded_assets.len() == 0 {
            out.append("  No assets uploaded.\n");
        } else {
            out.append("  Uploaded assets:\n");
            out.append(
                text::wrap_texts(self.uploaded_assets.as_slice(), "    - ", "\n").as_str(),
            );
            assert(out@ =~= head + ("  Uploaded assets:\n"@ + text::wrapped(
                text::views(self.uploaded_assets@),
                "    - "@,
                "\n"@,
            )));
        }
        out
    }

    /// The report, one line per uploaded file.
    pub fn pretty_print(&self) -> (r: String)
        ensures
            r@ == self.report(),
    {
        self.to_string()
    }
}

/// The first constraint that the options violate.
pub open spec fn violation(options: Options) -> Option<DraftError> {
    if options.release_tag is Some {
        None
    } else if options.version@.len() == 0 {
        Some(DraftError::NoVersion)
    } else if text::has(options.tag_format@, "{package_name}"@) && options.package_name@.len()
        == 0 {
        Some(DraftError::NoPackageName)
    } else {
        None
    }
}

/// Whether the options go together.
pub fn validate_options(options: &Options) -> (r: Result<(), DraftError>)
    ensures
        r == match violation(*options) {
            Some(error) => Err(error),
            None => Ok(()),
        },
{
    if options.release_tag.is_none() && options.version.as_str().unicode_len() == 0 {
        return Err(DraftError::NoVersion);
    }
    if options.release_tag.is_none() && text::has_text(
        options.tag_format.as_str(),
        "{package_name}",
    ) && options.package_name.as_str().unicode_len() == 0 {
        return Err(DraftError::NoPackageName);
    }
    Ok(())
}

/// The tag that the options ask for.
pub open spec fn chosen_tag(options: Options) -> Seq<char> {
    match options.release_tag {
        Some(tag) => tag@,
        None => release_utils::formatted_tag(
            options.tag_format@,
            options.package_name@,
            options.version@,
        ),
    }
}

/// The title of a release that is created: the one that is given, or else the tag.
pub open spec fn chosen_title(options: Options) -> Seq<char> {
    match options.release_name {
        Some(name) => name@,
        None => chosen_tag(options),
    }
}

/// Where a draft release stands.
#[derive(Debug)]
pub enum DraftStage {
    /// The release is to be found or created.
    Find,
    /// The release is known; its artifacts are to be looked for.
    CheckArtifacts(u64),
    /// The artifacts are there and to be uploaded to the release.
    Upload(u64),
    /// This was uploaded to the release.
    Finished(u64, Vec<String>),
}

/// A draft release under way.
#[derive(Debug)]
pub struct DraftRun {
    pub tag: String,
    /// The title of a release that is created.
    pub release_name: Option<String>,
    pub stage: DraftStage,
}

/// What a draft release asks for.
#[derive(Debug, Clone, PartialEq, Eq)]
pub enum DraftAction {
    /// Find the release of the tag, or create it.
    FindRelease { tag: String, name: Option<String> },
    /// Say whether there is a directory of artifacts.
    CheckArtifacts,
    /// Upload the artifacts to the release.
    UploadArtifacts { release_id: u64 },
    /// Nothing is left.
    Finish,
}

/// What became of it.
#[derive(Debug, Clone, PartialEq, Eq)]
pub enum DraftReply {
    /// The id of the release.
    Found(u64),
    /// Whether there is a directory of artifacts.
    Answer(bool),
    /// The names of the files that were uploaded.
    Uploaded(Vec<String>),
    /// The artifacts could not be uploaded.
    UploadFailed { message: String },
}

/// What a draft release asks for next.
pub open spec fn draft_asked(run: DraftRun) -> DraftAction {
    match run.stage {
        DraftStage::Find => DraftAction::FindRelease { tag: run.tag, name: run.release_name },
        DraftStage::CheckArtifacts(_) => DraftAction::CheckArtifacts,
        DraftStage::Upload(release_id) => DraftAction::UploadArtifacts { release_id },
        DraftStage::Finished(_, _) => DraftAction::Finish,
    }
}

/// What a reply makes of a draft release. Without a directory of artifacts nothing is uploaded.
pub open spec fn draft_answered(
    run: DraftRun,
    reply: DraftReply,
    r: Result<DraftRun, DraftError>,
) -> bool {
    match (run.stage, reply) {
        (DraftStage::Find, DraftReply::Found(id)) => r == Ok::<DraftRun, DraftError>(
            DraftRun { stage: DraftStage::CheckArtifacts(id), ..run },
        ),
        (DraftStage::CheckArtifacts(id), DraftReply::Answer(there)) => if there {
            r == Ok::<DraftRun, DraftError>(DraftRun { stage: DraftStage::Upload(id), ..run })
        } else {
            &&& r matches Ok(next)
            &&& next.stage matches DraftStage::Finished(i, names)
            &&& i == id
            &&& names@ == Seq::<String>::empty()
            &&& next == (DraftRun { stage: next.stage, ..run })
        },
        (DraftStage::Upload(id), DraftReply::Uploaded(names)) => r == Ok::<DraftRun, DraftError>(
            DraftRun { stage: DraftStage::Finished(id, names), ..run },
        ),
        (DraftStage::Upload(_), DraftReply::UploadFailed { message }) => r == Err::<
            DraftRun,
            DraftError,
        >(DraftError::UploadFailed { tag: run.tag, message }),
        _ => r == Err::<DraftRun, DraftError>(DraftError::UnexpectedReply),
    }
}

/// A draft release with these options, at its beginning.
pub fn draft_release(options: &Options) -> (r: Result<DraftRun, DraftError>)
    ensures
        if options.github_app_id is None || options.github_app_private_key is None {
            r == Err::<DraftRun, DraftError>(DraftError::NoCredentials)
        } else {
            match violation(*options) {
                Some(error) => r == Err::<DraftRun, DraftError>(error),
                None => {
                    &&& r matches Ok(run)
                    &&& run.tag@ == chosen_tag(*options)
                    &&& run.release_name matches Some(title) && title@ == chosen_title(*options)
                    &&& run.stage is Find
                },
            }
        },
{
    if options.github_app_id.is_none() || options.github_app_private_key.is_none() {
        return Err(DraftError::NoCredentials);
    }
    match validate_options(options) {
        Ok(()) => {},
        Err(error) => {
            return Err(error);
        },
    }
    let tag = match &options.release_tag {
        Some(explicit) => explicit.clone(),
        None => release_utils::format_tag(
            options.tag_format.as_str(),
            options.package_name.as_str(),
            options.version.as_str(),
        ),
    };
    let title = match &options.release_name {
        Some(name) => name.clone(),
        None => tag.clone(),
    };
    Ok(DraftRun { tag, release_name: Some(title), stage: DraftStage::Find })
}

impl DraftRun {
    /// What the draft release asks for next.
    pub fn request(&self) -> (r: DraftAction)
        ensures
            r == draft_asked(*self),
    {
        match &self.stage {
            DraftStage::Find => DraftAction::FindRelease {
                tag: self.tag.clone(),
                name: self.release_name.clone(),
            },
            DraftStage::CheckArtifacts(_) => DraftAction::CheckArtifacts,
            DraftStage::Upload(release_id) => DraftAction::UploadArtifacts {
                release_id: *release_id,
            },
            DraftStage::Finished(_, _) => DraftAction::Finish,
        }
    }

    /// The draft release after the reply to what it asked for.
    pub fn reply(self, reply: DraftReply) -> (r: Result<DraftRun, DraftError>)
        ensures
            draft_answered(self, reply, r),
    {
        let DraftRun { tag, release_name, stage } = self;
        match (stage, reply) {
            (DraftStage::Find, DraftReply::Found(id)) => Ok(
                DraftRun { tag, release_name, stage: DraftStage::CheckArtifacts(id) },
            ),
            (DraftStage::CheckArtifacts(id), DraftReply::Answer(there)) => if there {
                Ok(DraftRun { tag, release_name, stage: DraftStage::Upload(id) })
            } else {
                Ok(DraftRun { tag, release_name, stage: DraftStage::Finished(id, Vec::new()) })
            },
            (DraftStage::Upload(id), DraftReply::Uploaded(names)) => Ok(
                DraftRun { tag, release_name, stage: DraftStage::Finished(id, names) },
            ),
            (DraftStage::Upload(_), DraftReply::UploadFailed { message }) => Err(
                DraftError::UploadFailed { tag, message },
            ),
            _ => Err(DraftError::UnexpectedReply),
        }
    }

    /// The release and what was uploaded to it, once nothing is left to do.
    pub fn finish(self) -> (r: Option<DraftReleaseResult>)
        ensures
            match self.stage {
                DraftStage::Finished(id, names) => r == Some(
                    DraftReleaseResult { tag: self.tag, release_id: id, uploaded_assets: names },
                ),
                _ => r is None,
            },
    {
        match self.stage {
            DraftStage::Finished(release_id, uploaded_assets) => Some(
                DraftReleaseResult { tag: self.tag, release_id, uploaded_assets },
            ),
            _ => None,
        }
    }
}

/// A tag that is given is used as it is, whatever else the options say.
pub proof fn given_tag_is_used(options: Options)
    requires
        options.release_tag is Some,
    ensures
        violation(options) is None,
        chosen_tag(options) == (options.release_tag->0)@,
{
}

/// Options that go together leave no placeholder to be filled in with nothing: the version is
/// there, and so is a package name that the template asks for.
pub proof fn valid_options_fill_in(options: Options)
    requires
        violation(options) is None,
        options.release_tag is None,
    ensures
        options.version@.len() > 0,
        text::has(options.tag_format@, "{package_name}"@) ==> options.package_name@.len() > 0,
{
}

/// A draft release that ran through ends with the tag it began with, the release that was found,
/// and what was uploaded: nothing, if there was no directory of artifacts.
pub proof fn draft_reports_what_was_done(
    run: DraftRun,
    id: u64,
    there: bool,
    names: Vec<String>,
    found: DraftRun,
    checked: DraftRun,
    done: DraftRun,
)
    requires
        run.stage is Find,
        draft_answered(run, DraftReply::Found(id), Ok(found)),
        draft_answered(found, DraftReply::Answer(there), Ok(checked)),
        if there {
            draft_answered(checked, DraftReply::Uploaded(names), Ok(done))
        } else {
            done == checked
        },
    ensures
        draft_asked(done) is Finish,
        done.tag == run.tag,
        match done.stage {
            DraftStage::Finished(i, uploaded) => i == id && uploaded@ == if there {
                names@
            } else {
                Seq::empty()
            },
            _ => false,
        },
{
}

/// A draft that is created without a name of its own is titled with its tag.
pub proof fn untitled_draft_is_titled_with_its_tag(
    options: Options,
    run: DraftRun,
    search: find::FindRun,
)
    requires
        options.release_name is None,
        run.tag@ == chosen_tag(options),
        run.release_name matches Some(title) && title@ == chosen_title(options),
        search.tag == run.tag,
        search.name == run.release_name,
        search.stage is Create,
    ensures
        match find::find_asked(search) {
            find::FindAction::CreateDraft { tag, name: Some(name) } => tag@ == chosen_tag(options)
                && name@ == tag@,
            _ => false,
        },
{
}

} // verus!
