//! What holds of a search for a release and of a draft release, whatever the server says.
use vstd::prelude::*;

use super::error;
use super::error::DraftError;
use super::find;
use super::find::{FindAction, FindReply, FindRun, FindStage, Release};
use super::{DraftAction, DraftReleaseResult, DraftReply, DraftRun, DraftStage, Options};
use crate::commands::release_laws;
use crate::commands::release_laws::Piece;
use crate::text;
use crate::text_laws;

verus! {

/// A search begins by asking for the release of its tag, and for nothing else.
pub proof fn search_begins_with_the_tag(run: FindRun)
    requires
        run.stage is Fetch,
    ensures
        find::find_asked(run) == (FindAction::FetchByTag { tag: run.tag }),
{
}

/// The release that the server returns for the tag is the result, whether it is a draft or not,
/// whatever its title and whatever title is asked for.
pub proof fn fetched_release_is_the_result(run: FindRun, release: Release)
    requires
        run.stage is Fetch,
    ensures
        match find::find_answered(run, FindReply::Release(release)) {
            Ok(next) => next.stage == FindStage::Found(release) && find::find_asked(next)
                is Finish && next.tag == run.tag && next.name == run.name,
            Err(_) => false,
        },
{
}

/// Releases are listed only after the server said that the tag has none, and always then.
pub proof fn releases_are_listed_only_after_a_404(run: FindRun, reply: FindReply)
    requires
        run.stage is Fetch,
    ensures
        (match find::find_answered(run, reply) {
            Ok(next) => !(next.stage is Found),
            Err(_) => false,
        }) <==> match reply {
            FindReply::FetchFailed { status, .. } => status == Some(404u16),
            _ => false,
        },
        match find::find_answered(run, reply) {
            Ok(next) => !(next.stage is Found) ==> find::find_asked(next) is ListReleases
                && next.tag == run.tag && next.name == run.name,
            Err(_) => true,
        },
{
}

proof fn first_draft_directly(releases: Seq<Release>, tag: Seq<char>)
    ensures
        match find::first_draft(releases, tag) {
            Some(i) => 0 <= i < releases.len() && releases[i].draft && releases[i].tag_name@ == tag
                && forall|j: int|
                0 <= j < i ==> !((#[trigger] releases[j]).draft && releases[j].tag_name@ == tag),
            None => forall|j: int|
                0 <= j < releases.len() ==> !((#[trigger] releases[j]).draft
                    && releases[j].tag_name@ == tag),
        },
    decreases releases.len(),
{
    if releases.len() > 0 {
        let inner = releases.drop_last();
        first_draft_directly(inner, tag);
        assert forall|j: int| 0 <= j < inner.len() implies inner[j] == #[trigger] releases[j] by {}
    }
}

/// Of the listed releases, the first that is a draft and has the tag is the result; a draft is
/// created, with the tag and the title of the search, exactly if there is none.
pub proof fn first_draft_of_the_tag_is_the_result(run: FindRun, releases: Vec<Release>, i: int)
    requires
        run.stage is List,
        0 <= i < releases@.len(),
        releases@[i].draft,
        releases@[i].tag_name@ == run.tag@,
        forall|j: int|
            0 <= j < i ==> !((#[trigger] releases@[j]).draft && releases@[j].tag_name@
                == run.tag@),
    ensures
        match find::find_answered(run, FindReply::Releases(releases)) {
            Ok(next) => next.stage == FindStage::Found(releases@[i]) && find::find_asked(next)
                is Finish,
            Err(_) => false,
        },
{
    first_draft_directly(releases@, run.tag@);
}

/// Without a draft of the tag among the listed releases, one is created, with the tag and the
/// title of the search.
pub proof fn draft_is_created_where_none_is_listed(run: FindRun, releases: Vec<Release>)
    requires
        run.stage is List,
        forall|j: int|
            0 <= j < releases@.len() ==> !((#[trigger] releases@[j]).draft
                && releases@[j].tag_name@ == run.tag@),
    ensures
        match find::find_answered(run, FindReply::Releases(releases)) {
            Ok(next) => find::find_asked(next) == (FindAction::CreateDraft {
                tag: run.tag,
                name: run.name,
            }),
            Err(_) => false,
        },
{
    first_draft_directly(releases@, run.tag@);
}

/// The release that was created is the result.
pub proof fn created_release_is_the_result(run: FindRun, release: Release)
    requires
        run.stage is Create,
    ensures
        match find::find_answered(run, FindReply::Release(release)) {
            Ok(next) => next.stage == FindStage::Found(release) && find::find_asked(next)
                is Finish,
            Err(_) => false,
        },
{
}

/// No failure is passed over, but that the tag has no release: a search that is told of one
/// stops, and says what failed.
pub proof fn failed_search_stops(run: FindRun, reply: FindReply)
    requires
        !(reply is Release),
        !(reply is Releases),
        match (run.stage, reply) {
            (FindStage::Fetch, FindReply::FetchFailed { status, .. }) => status != Some(404u16),
            _ => true,
        },
    ensures
        find::find_answered(run, reply) is Err,
        ({
            let failure = find::find_answered(run, reply)->Err_0;
            match (find::find_asked(run), reply) {
                (FindAction::FetchByTag { tag }, FindReply::FetchFailed { status, message }) =>
                    error::error_text(failure) == "Failed to fetch release for tag: "@ + tag@,
                (FindAction::ListReleases { .. }, FindReply::ListFailed { message }) =>
                    error::error_text(failure) == "Failed to list releases to find draft"@,
                (FindAction::ListReleases { .. }, FindReply::PagingFailed { message }) =>
                    error::error_text(failure) == "Failed to paginate releases to find draft"@,
                (FindAction::CreateDraft { tag, .. }, FindReply::CreateFailed { message }) =>
                    error::error_text(failure) == "Failed to create draft release for tag: "@
                    + tag@,
                _ => failure is UnexpectedReply,
            }
        }),
{
}

/// A search that has its release takes no further reply.
pub proof fn ended_search_stays_ended(run: FindRun, reply: FindReply)
    requires
        run.stage is Found,
    ensures
        find::find_asked(run) is Finish,
        find::find_answered(run, reply) is Err,
{
}

/// The options are refused exactly where no tag is given and the version is missing, or where the
/// template asks for a package name that is missing; a missing version is told first.
pub proof fn options_are_refused_for_a_reason(options: Options)
    ensures
        super::violation(options) is None <==> {
            ||| options.release_tag is Some
            ||| options.version@.len() > 0 && (options.package_name@.len() > 0 || !text::has(
                options.tag_format@,
                "{package_name}"@,
            ))
        },
        super::violation(options) matches Some(failure) ==> error::error_text(failure) == if
            options.version@.len() == 0 {
            "--version or --release-tag is required"@
        } else {
            "--package-name is required when --tag-format contains {package_name}"@
        },
{
}

/// The tag is the one that is given; or else the template with the package name and the version
/// in their places, however many there are, as long as no other brace opens, in the template or
/// in the package name.
pub proof fn tag_is_given_or_made(options: Options, pieces: Seq<Piece>)
    ensures
        options.release_tag matches Some(tag) ==> super::chosen_tag(options) == tag@,
        options.release_tag is None && release_laws::no_stray_brace(pieces)
            && !options.package_name@.contains('{') && options.tag_format@
            == release_laws::assembled(pieces, "{package_name}"@, "{version}"@)
            ==> super::chosen_tag(options) == release_laws::assembled(
            pieces,
            options.package_name@,
            options.version@,
        ),
{
    if release_laws::no_stray_brace(pieces) && !options.package_name@.contains('{') {
        release_laws::tag_fills_every_place_in(pieces, options.package_name@, options.version@);
    }
}

/// The title is the one that is given, or else the tag.
pub proof fn title_is_given_or_the_tag(options: Options)
    ensures
        options.release_name matches Some(name) ==> super::chosen_title(options) == name@,
        options.release_name is None ==> super::chosen_title(options) == super::chosen_tag(
            options,
        ),
{
}

/// A draft release begins with the search for its own tag, under its own title.
pub proof fn draft_begins_with_the_search(run: DraftRun)
    requires
        run.stage is Find,
    ensures
        super::draft_asked(run) == (DraftAction::FindRelease {
            tag: run.tag,
            name: run.release_name,
        }),
{
}

/// Artifacts are uploaded to the release that was found, exactly if there is a directory of them;
/// what the upload reports is what is reported.
pub proof fn artifacts_go_to_the_found_release(
    run: DraftRun,
    id: u64,
    there: bool,
    found: DraftRun,
    checked: DraftRun,
)
    requires
        run.stage is Find,
        super::draft_answered(run, DraftReply::Found(id), Ok(found)),
        super::draft_answered(found, DraftReply::Answer(there), Ok(checked)),
    ensures
        super::draft_asked(found) is CheckArtifacts,
        super::draft_asked(checked) == if there {
            DraftAction::UploadArtifacts { release_id: id }
        } else {
            DraftAction::Finish
        },
        checked.tag == run.tag,
        checked.release_name == run.release_name,
{
}

/// Replies that answer are taken, and only those; a failed upload stops the draft release and
/// names its tag.
pub proof fn draft_takes_only_answers(
    run: DraftRun,
    reply: DraftReply,
    r: Result<DraftRun, DraftError>,
)
    requires
        super::draft_answered(run, reply, r),
    ensures
        r is Ok <==> match (super::draft_asked(run), reply) {
            (DraftAction::FindRelease { .. }, DraftReply::Found(_))
            | (DraftAction::CheckArtifacts, DraftReply::Answer(_))
            | (DraftAction::UploadArtifacts { .. }, DraftReply::Uploaded(_)) => true,
            _ => false,
        },
        super::draft_asked(run) is UploadArtifacts && reply is UploadFailed ==> error::error_text(
            r->Err_0,
        ) == "Failed to upload artifacts to release "@ + run.tag@,
{
}

/// The report is the tag and the id of the release, and then a line for each uploaded file, in
/// order; or one that says that there is none.
pub proof fn report_has_a_line_per_file(
    result: DraftReleaseResult,
    before: Seq<Seq<char>>,
    asset: Seq<char>,
    after: Seq<Seq<char>>,
)
    ensures
        ({
            let head = "Draft release: "@ + result.tag@ + " (id="@ + text::decimal(
                result.release_id as nat,
            ) + ")\n"@;
            &&& result.uploaded_assets@.len() == 0 ==> result.report() == head
                + "  No assets uploaded.\n"@
            &&& text::views(result.uploaded_assets@) == before + seq![asset] + after
                ==> result.report() == head + ("  Uploaded assets:\n"@ + (text::wrapped(
                before,
                "    - "@,
                "\n"@,
            ) + "    - "@ + asset + "\n"@ + text::wrapped(after, "    - "@, "\n"@)))
        }),
{
    text_laws::wrapped_item_by_item(before, asset, after, "    - "@, "\n"@);
}

/// A search takes the reply that answers what it asks for, and no other; its tag and its title
/// stay, and what is told of a failure is passed on as it is.
pub proof fn search_takes_only_answers(run: FindRun, reply: FindReply)
    ensures
        match (run.stage, reply) {
            (FindStage::Fetch, FindReply::Release(_))
            | (FindStage::List, FindReply::Releases(_))
            | (FindStage::Create, FindReply::Release(_)) => find::find_answered(run, reply) is Ok,
            (FindStage::Fetch, FindReply::FetchFailed { status, message }) => status
                != Some(404u16) ==> find::find_answered(run, reply) == Err::<FindRun, DraftError>(
                DraftError::FetchFailed { tag: run.tag, message },
            ),
            (FindStage::List, FindReply::ListFailed { message }) => find::find_answered(run, reply)
                == Err::<FindRun, DraftError>(DraftError::ListFailed { message }),
            (FindStage::List, FindReply::PagingFailed { message }) => find::find_answered(
                run,
                reply,
            ) == Err::<FindRun, DraftError>(DraftError::PagingFailed { message }),
            (FindStage::Create, FindReply::CreateFailed { message }) => find::find_answered(
                run,
                reply,
            ) == Err::<FindRun, DraftError>(DraftError::CreateFailed { tag: run.tag, message }),
            _ => find::find_answered(run, reply) == Err::<FindRun, DraftError>(
                DraftError::UnexpectedReply,
            ),
        },
        match find::find_answered(run, reply) {
            Ok(next) => next.tag == run.tag && next.name == run.name,
            Err(_) => true,
        },
        find::find_asked(run) matches FindAction::ListReleases { per_page } ==> per_page == 100,
{
}

/// What is reported is what was uploaded to the release that was found: what the upload names, or
/// nothing where there is no directory of artifacts. The tag and the title stay, and what is told
/// of a failure is passed on as it is.
pub proof fn what_was_uploaded_is_reported(
    run: DraftRun,
    reply: DraftReply,
    r: Result<DraftRun, DraftError>,
)
    requires
        super::draft_answered(run, reply, r),
    ensures
        match (run.stage, reply) {
            (DraftStage::Find, DraftReply::Found(id)) => match r {
                Ok(next) => next.stage == DraftStage::CheckArtifacts(id),
                Err(_) => false,
            },
            (DraftStage::CheckArtifacts(id), DraftReply::Answer(true)) => match r {
                Ok(next) => next.stage == DraftStage::Upload(id),
                Err(_) => false,
            },
            (DraftStage::CheckArtifacts(id), DraftReply::Answer(false)) => match r {
                Ok(next) => match next.stage {
                    DraftStage::Finished(release, names) => release == id && names@.len() == 0,
                    _ => false,
                },
                Err(_) => false,
            },
            (DraftStage::Upload(id), DraftReply::Uploaded(names)) => match r {
                Ok(next) => next.stage == DraftStage::Finished(id, names),
                Err(_) => false,
            },
            (DraftStage::Upload(_), DraftReply::UploadFailed { message }) => match r {
                Err(DraftError::UploadFailed { tag, message: m }) => tag == run.tag && m
                    == message,
                _ => false,
            },
            _ => match r {
                Err(failure) => failure is UnexpectedReply,
                Ok(_) => false,
            },
        },
        match r {
            Ok(next) => next.tag == run.tag && next.release_name == run.release_name,
            Err(_) => true,
        },
{
}

} // verus!
