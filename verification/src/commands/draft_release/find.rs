//! Finding the draft release of a tag, or creating it.
use vstd::prelude::*;

use super::error::DraftError;
use crate::text;

verus! {

/// A release.
#[derive(Debug, Clone, PartialEq, Eq)]
pub struct Release {
    pub id: u64,
    pub tag_name: String,
    pub draft: bool,
    pub name: Option<String>,
}

/// Where a search stands.
#[derive(Debug)]
pub enum FindStage {
    /// The release of the tag is to be fetched. Drafts are not found that way.
    Fetch,
    /// All releases are to be listed, to look for a draft.
    List,
    /// A draft is to be created.
    Create,
    /// This is the release.
    Found(Release),
}

/// A search for the release of a tag.
#[derive(Debug)]
pub struct FindRun {
    pub tag: String,
    /// The title of a release that is created.
    pub name: Option<String>,
    pub stage: FindStage,
}

/// What a search asks for.
#[derive(Debug, Clone, PartialEq, Eq)]
pub enum FindAction {
    /// Fetch the release of the tag.
    FetchByTag { tag: String },
    /// List all releases, so many at a time.
    ListReleases { per_page: u8 },
    /// Create a draft.
    CreateDraft { tag: String, name: Option<String> },
    /// Nothing is left.
    Finish,
}

/// What became of it.
#[derive(Debug, Clone, PartialEq, Eq)]
pub enum FindReply {
    /// The release that was fetched or created.
    Release(Release),
    /// The release could not be fetched; the server answered with that status, if it answered.
    FetchFailed { status: Option<u16>, message: String },
    /// The first page of the releases could not be listed.
    ListFailed { message: String },
    /// A later page of the releases could not be listed.
    PagingFailed { message: String },
    /// The draft could not be created.
    CreateFailed { message: String },
    /// All releases.
    Releases(Vec<Release>),
}

/// The release is the draft of the tag.
pub open spec fn is_draft_of(release: Release, tag: Seq<char>) -> bool {
    release.draft && release.tag_name@ == tag
}

/// The position of the first draft of the tag, if there is one.
pub open spec fn first_draft(releases: Seq<Release>, tag: Seq<char>) -> Option<int>
    decreases releases.len(),
{
    if releases.len() == 0 {
        None
    } else {
        match first_draft(releases.drop_last(), tag) {
            Some(i) => Some(i),
            None => if is_draft_of(releases.last(), tag) {
                Some(releases.len() - 1)
            } else {
                None
            },
        }
    }
}

/// What a search asks for next.
pub open spec fn find_asked(run: FindRun) -> FindAction {
    match run.stage {
        FindStage::Fetch => FindAction::FetchByTag { tag: run.tag },
        FindStage::List => FindAction::ListReleases { per_page: 100 },
        FindStage::Create => FindAction::CreateDraft { tag: run.tag, name: run.name },
        FindStage::Found(_) => FindAction::Finish,
    }
}

/// What a reply makes of a search.
pub open spec fn find_answered(run: FindRun, reply: FindReply) -> Result<FindRun, DraftError> {
    match (run.stage, reply) {
        (FindStage::Fetch, FindReply::Release(release))
        | (FindStage::Create, FindReply::Release(release)) => Ok(
            FindRun { stage: FindStage::Found(release), ..run },
        ),
        (FindStage::Fetch, FindReply::FetchFailed { status, message }) => if status == Some(404u16) {
            Ok(FindRun { stage: FindStage::List, ..run })
        } else {
            Err(DraftError::FetchFailed { tag: run.tag, message })
        },
        (FindStage::List, FindReply::Releases(releases)) => Ok(
            FindRun {
                stage: match first_draft(releases@, run.tag@) {
                    Some(i) => FindStage::Found(releases@[i]),
                    None => FindStage::Create,
                },
                ..run
            },
        ),
        (FindStage::List, FindReply::ListFailed { message }) => Err(
            DraftError::ListFailed { message },
        ),
        (FindStage::List, FindReply::PagingFailed { message }) => Err(
            DraftError::PagingFailed { message },
        ),
        (FindStage::Create, FindReply::CreateFailed { message }) => Err(
            DraftError::CreateFailed { tag: run.tag, message },
        ),
        _ => Err(DraftError::UnexpectedReply),
    }
}

/// The position of the first draft of the tag, if there is one.
fn find_draft(releases: &[Release], tag: &str) -> (r: Option<usize>)
    ensures
        match r {
            Some(i) => first_draft(releases@, tag@) == Some(i as int) && i < releases.len(),
            None => first_draft(releases@, tag@) is None,
        },
{
    let mut found: Option<usize> = None;
    let mut i: usize = 0;
    while i < releases.len()
        invariant
            i <= releases.len(),
            match found {
                Some(k) => first_draft(releases@.take(i as int), tag@) == Some(k as int) && k < i,
                None => first_draft(releases@.take(i as int), tag@) is None,
            },
        decreases releases.len() - i,
    {
        assert(releases@.take(i + 1).drop_last() =~= releases@.take(i as int));
        if found.is_none() && releases[i].draft && text::same_text(
            releases[i].tag_name.as_str(),
            tag,
        ) {
            found = Some(i);
        }
        i += 1;
    }
    assert(releases@.take(i as int) =~= releases@);
    found
}

/// A search for the release of a tag, at its beginning. It ends with the release of the tag, or
/// else with the first draft of the tag, or else with a new draft.
pub fn find_or_create_draft_release(tag: String, name: Option<String>) -> (r: FindRun)
    ensures
        r == (FindRun { tag, name, stage: FindStage::Fetch }),
{
    FindRun { tag, name, stage: FindStage::Fetch }
}

impl FindRun {
    /// What the search asks for next.
    pub fn request(&self) -> (r: FindAction)
        ensures
            r == find_asked(*self),
    {
        match &self.stage {
            FindStage::Fetch => FindAction::FetchByTag { tag: self.tag.clone() },
            FindStage::List => FindAction::ListReleases { per_page: 100 },
            FindStage::Create => FindAction::CreateDraft {
                tag: self.tag.clone(),
                name: self.name.clone(),
            },
            FindStage::Found(_) => FindAction::Finish,
        }
    }

    /// The search after the reply to what it asked for.
    pub fn reply(self, reply: FindReply) -> (r: Result<FindRun, DraftError>)
        ensures
            r == find_answered(self, reply),
    {
        let FindRun { tag, name, stage } = self;
        match (stage, reply) {
            (FindStage::Fetch, FindReply::Release(release)) => Ok(
                FindRun { tag, name, stage: FindStage::Found(release) },
            ),
            (FindStage::Create, FindReply::Release(release)) => Ok(
                FindRun { tag, name, stage: FindStage::Found(release) },
            ),
            (FindStage::Fetch, FindReply::FetchFailed { status, message }) => {
                let missing = match status {
                    Some(code) => code == 404,
                    None => false,
                };
                if missing {
                    Ok(FindRun { tag, name, stage: FindStage::List })
                } else {
                    Err(DraftError::FetchFailed { tag, message })
                }
            },
            (FindStage::List, FindReply::Releases(listed)) => {
                let mut releases = listed;
                match find_draft(releases.as_slice(), tag.as_str()) {
                    Some(i) => {
                        let release = releases.remove(i);
                        Ok(FindRun { tag, name, stage: FindStage::Found(release) })
                    },
                    None => Ok(FindRun { tag, name, stage: FindStage::Create }),
                }
            },
            (FindStage::List, FindReply::ListFailed { message }) => Err(
                DraftError::ListFailed { message },
            ),
            (FindStage::List, FindReply::PagingFailed { message }) => Err(
                DraftError::PagingFailed { message },
            ),
            (FindStage::Create, FindReply::CreateFailed { message }) => Err(
                DraftError::CreateFailed { tag, message },
            ),
            _ => Err(DraftError::UnexpectedReply),
        }
    }

    /// The release, once it is found.
    pub fn finish(self) -> (r: Option<Release>)
        ensures
            r == match self.stage {
                FindStage::Found(release) => Some(release),
                _ => None,
            },
    {
        match self.stage {
            FindStage::Found(release) => Some(release),
            _ => None,
        }
    }
}

/// What `first_draft` finds is a draft of the tag, and no release before it is.
proof fn first_draft_is_first(releases: Seq<Release>, tag: Seq<char>)
    ensures
        match first_draft(releases, tag) {
            Some(i) => 0 <= i < releases.len() && is_draft_of(releases[i], tag) && forall|j: int|
                0 <= j < i ==> !is_draft_of(#[trigger] releases[j], tag),
            None => forall|j: int|
                0 <= j < releases.len() ==> !is_draft_of(#[trigger] releases[j], tag),
        },
    decreases releases.len(),
{
    if releases.len() > 0 {
        let inner = releases.drop_last();
        first_draft_is_first(inner, tag);
        assert forall|j: int| 0 <= j < inner.len() implies inner[j] == #[trigger] releases[j] by {}
    }
}

/// A draft of the tag that is there is used and no other is created; without one, a draft is
/// created. So a second search finds the draft that a first one created.
pub proof fn draft_is_created_once(run: FindRun, releases: Vec<Release>)
    requires
        run.stage is List,
    ensures
        ({
            let there = exists|i: int|
                0 <= i < releases@.len() && is_draft_of(#[trigger] releases@[i], run.tag@);
            match find_answered(run, FindReply::Releases(releases)) {
                Ok(next) => if there {
                    &&& find_asked(next) is Finish
                    &&& next.stage matches FindStage::Found(release)
                    &&& is_draft_of(release, run.tag@)
                    &&& releases@.contains(release)
                } else {
                    find_asked(next) == (FindAction::CreateDraft { tag: run.tag, name: run.name })
                },
                Err(_) => false,
            }
        }),
{
    first_draft_is_first(releases@, run.tag@);
}

/// Releases are listed, and a draft may be created, only where the server says that the tag has
/// no release; any other failure stops the search.
pub proof fn only_a_missing_release_is_created(run: FindRun, status: Option<u16>, message: String)
    requires
        run.stage is Fetch,
    ensures
        find_answered(run, FindReply::FetchFailed { status, message }) is Ok <==> status == Some(
            404u16,
        ),
{
}

/// A search never forgets what it looks for.
pub proof fn search_keeps_its_tag(run: FindRun, reply: FindReply)
    ensures
        find_answered(run, reply) matches Ok(next) ==> next.tag == run.tag && next.name == run.name,
{
}

} // verus!
