//! Tags of releases, and the files that are uploaded to a release.
use vstd::prelude::*;

use crate::text;

verus! {

/// The tag that `template` makes: the package name in place of `{package_name}`, then the
/// version in place of `{version}`.
pub open spec fn formatted_tag(
    template: Seq<char>,
    package_name: Seq<char>,
    version: Seq<char>,
) -> Seq<char> {
    text::replaced(
        text::replaced(template, "{package_name}"@, package_name),
        "{version}"@,
        version,
    )
}

/// Fills a template for tags in. It may hold `{package_name}` and `{version}`.
pub fn format_tag(template: &str, package_name: &str, version: &str) -> (r: String)
    ensures
        r@ == formatted_tag(template@, package_name@, version@),
{
    proof {
        reveal_strlit("{package_name}");
        reveal_strlit("{version}");
        assert("{package_name}"@.len() == 14);
        assert("{version}"@.len() == 9);
    }
    let named = text::replace_text(template, "{package_name}", package_name);
    text::replace_text(named.as_str(), "{version}", version)
}

/// A template without placeholders is its own tag.
pub proof fn plain_template_is_its_tag(
    template: Seq<char>,
    package_name: Seq<char>,
    version: Seq<char>,
)
    requires
        !text::has(template, "{package_name}"@),
        !text::has(template, "{version}"@),
    ensures
        formatted_tag(template, package_name, version) == template,
{
    text::replaced_absent(template, "{package_name}"@, package_name);
    text::replaced_absent(template, "{version}"@, version);
}

/// Both placeholders are filled in and what stands around them stays, as long as no other brace
/// opens, in the template or in the package name.
pub proof fn tag_fills_in_both(
    before: Seq<char>,
    between: Seq<char>,
    after: Seq<char>,
    package_name: Seq<char>,
    version: Seq<char>,
)
    requires
        !before.contains('{'),
        !between.contains('{'),
        !after.contains('{'),
        !package_name.contains('{'),
    ensures
        formatted_tag(
            before + "{package_name}"@ + between + "{version}"@ + after,
            package_name,
            version,
        ) == before + package_name + between + version + after,
{
    let name_mark = "{package_name}"@;
    let version_mark = "{version}"@;
    reveal_strlit("{package_name}");
    reveal_strlit("{version}");
    assert(name_mark.len() == 14 && name_mark[0] == '{');
    assert(version_mark.len() == 9 && version_mark[0] == '{');
    let tail = version_mark + after;
    let rest = between + tail;
    assert(before + name_mark + between + version_mark + after =~= before + (name_mark + rest));
    text::replaced_after(before, name_mark + rest, name_mark, package_name);
    text::replaced_leading(rest, name_mark, package_name);
    text::replaced_after(between, tail, name_mark, package_name);
    no_name_mark(after);
    text::replaced_absent(tail, name_mark, package_name);
    let head = before + package_name + between;
    assert(before + (package_name + rest) =~= head + tail);
    assert(!head.contains('{')) by {
        if head.contains('{') {
            let i = choose|i: int| 0 <= i < head.len() && head[i] == '{';
            if i < before.len() {
                assert(before[i] == '{');
            } else if i < before.len() + package_name.len() {
                assert(package_name[i - before.len()] == '{');
            } else {
                assert(between[i - before.len() - package_name.len()] == '{');
            }
        }
    }
    text::replaced_after(head, tail, version_mark, version);
    text::replaced_leading(after, version_mark, version);
    if text::has(after, version_mark) {
        let i = choose|i: int| text::occurs_at(after, version_mark, i);
        assert(after.subrange(i, i + version_mark.len())[0] == after[i]);
        assert(after.contains('{'));
    }
    text::replaced_absent(after, version_mark, version);
    assert(head + (version + after) =~= before + package_name + between + version + after);
}

/// The place for the package name does not stand in the place for the version.
proof fn no_name_mark(after: Seq<char>)
    requires
        !after.contains('{'),
    ensures
        !text::has("{version}"@ + after, "{package_name}"@),
{
    let all = "{version}"@ + after;
    reveal_strlit("{package_name}");
    reveal_strlit("{version}");
    assert("{version}"@.len() == 9);
    assert("{package_name}"@.len() == 14);
    if text::has(all, "{package_name}"@) {
        let i = choose|i: int| text::occurs_at(all, "{package_name}"@, i);
        let found = all.subrange(i, i + 14);
        assert(found[0] == all[i]);
        assert(found[1] == all[i + 1]);
        assert("{package_name}"@[0] == '{' && "{package_name}"@[1] == 'p');
        if i == 0 {
            assert(all[1] == 'v');
        } else if i < 9 {
            assert(all[i] == "{version}"@[i]);
        } else {
            assert(after[i - 9] == '{');
        }
    }
}

/// A file of a release.
#[derive(Debug, Clone, PartialEq, Eq)]
pub struct Asset {
    pub id: u64,
    pub name: String,
}

/// An entry of the directory of artifacts.
#[derive(Debug, Clone, PartialEq, Eq)]
pub struct ArtifactEntry {
    /// Its name, if that is Unicode.
    pub name: Option<String>,
    pub is_file: bool,
}

/// One step of an upload.
#[derive(Debug)]
pub enum UploadTask {
    /// List the files that the release has.
    ListAssets,
    /// List the artifacts, to upload them in place of these files.
    ListArtifacts(Vec<Asset>),
    /// Read the artifact at that position.
    Read(usize),
    /// Delete a file of the release.
    Delete(u64, String),
    /// Upload the artifact at that position under that name.
    Upload(usize, String),
}

/// What an upload asks for.
#[derive(Debug, Clone, PartialEq, Eq)]
pub enum UploadAction {
    /// List all files of the release, so many at a time.
    ListAssets { release_id: u64, per_page: u8 },
    /// List the directory of artifacts.
    ListArtifacts,
    /// Read the artifact at that position.
    Read { position: usize },
    /// Delete a file of the release.
    Delete { id: u64, name: String },
    /// Upload what was read from the artifact at that position.
    Upload { release_id: u64, position: usize, name: String },
    /// Nothing is left.
    Finish,
}

/// What could not be done with a file.
#[derive(Debug, Clone, Copy, PartialEq, Eq, Structural)]
pub enum FileStep {
    Stat,
    Open,
    Read,
}

/// What became of it. Where a path is given, it is the one that is shown to the user.
#[derive(Debug, Clone, PartialEq, Eq)]
pub enum UploadReply {
    Assets(Vec<Asset>),
    Entries(Vec<ArtifactEntry>),
    Done,
    /// The server could not be asked, or refused.
    Failed { message: String },
    /// The directory of artifacts could not be listed.
    DirFailed { path: String, message: String },
    /// An artifact could not be read.
    FileFailed { step: FileStep, path: String, message: String },
}

/// Why an upload stops.
#[derive(Debug, Clone, PartialEq, Eq)]
pub enum UploadError {
    /// The files of the release could not be listed.
    ListAssets { release_id: u64, message: String },
    /// The directory of artifacts could not be listed.
    ListArtifacts { path: String, message: String },
    /// An artifact could not be read.
    ReadArtifact { step: FileStep, path: String, message: String },
    /// A file of the release could not be deleted.
    DeleteAsset { name: String, message: String },
    /// An artifact could not be uploaded.
    UploadAsset { name: String, message: String },
    /// A reply that does not answer the request that was made.
    UnexpectedReply,
}

/// The message of an error.
pub open spec fn upload_error_text(error: UploadError) -> Seq<char> {
    match error {
        UploadError::ListAssets { release_id, message } => "Failed to list assets for release "@
            + text::decimal(release_id as nat),
        UploadError::ListArtifacts { path, message } => "Failed to read artifact directory: "@
            + path@,
        UploadError::ReadArtifact { step, path, message } => match step {
            FileStep::Stat => "Failed to stat "@ + path@,
            FileStep::Open => "Failed to open "@ + path@,
            FileStep::Read => "Failed to read "@ + path@,
        },
        UploadError::DeleteAsset { name, message } => "Failed to delete existing asset "@ + name@,
        UploadError::UploadAsset { name, message } => "Failed to upload asset: "@ + name@,
        UploadError::UnexpectedReply => "The reply does not answer the request"@,
    }
}

impl UploadError {
    /// The message of the error.
    pub fn to_string(&self) -> (r: String)
        ensures
            r@ == upload_error_text(*self),
    {
        match self {
            UploadError::ListAssets { release_id, .. } =>
                "Failed to list assets for release ".to_owned().concat(
                text::decimal_text(*release_id).as_str(),
            ),
            UploadError::ListArtifacts { path, .. } =>
                "Failed to read artifact directory: ".to_owned().concat(path.as_str()),
            UploadError::ReadArtifact { step, path, .. } => match step {
                FileStep::Stat => "Failed to stat ".to_owned().concat(path.as_str()),
                FileStep::Open => "Failed to open ".to_owned().concat(path.as_str()),
                FileStep::Read => "Failed to read ".to_owned().concat(path.as_str()),
            },
            UploadError::DeleteAsset { name, .. } =>
                "Failed to delete existing asset ".to_owned().concat(name.as_str()),
            UploadError::UploadAsset { name, .. } => "Failed to upload asset: ".to_owned().concat(
                name.as_str(),
            ),
            UploadError::UnexpectedReply => "The reply does not answer the request".to_owned(),
        }
    }
}

/// An upload under way.
#[derive(Debug)]
pub struct UploadRun {
    pub release_id: u64,
    /// What is left to do, in order.
    pub pending: Vec<UploadTask>,
    /// The names of the files that were uploaded, in order.
    pub uploaded: Vec<String>,
}

/// The name to upload an entry under, if it is to be uploaded.
pub open spec fn asset_name(entry: ArtifactEntry) -> Option<String> {
    if entry.is_file {
        entry.name
    } else {
        None
    }
}

/// The position of the first file with that name, if there is one.
pub open spec fn first_named(assets: Seq<Asset>, name: Seq<char>) -> Option<int>
    decreases assets.len(),
{
    if assets.len() == 0 {
        None
    } else {
        match first_named(assets.drop_last(), name) {
            Some(i) => Some(i),
            None => if assets.last().name@ == name {
                Some(assets.len() - 1)
            } else {
                None
            },
        }
    }
}

/// The steps that upload one artifact in place of the file that has its name.
pub open spec fn entry_tasks(position: usize, name: String, assets: Seq<Asset>) -> Seq<
    UploadTask,
> {
    seq![UploadTask::Read(position)] + (match first_named(assets, name@) {
        Some(i) => seq![UploadTask::Delete(assets[i].id, assets[i].name)],
        None => Seq::empty(),
    }) + seq![UploadTask::Upload(position, name)]
}

/// The steps that upload the artifacts in place of the files of the same names.
pub open spec fn upload_tasks(entries: Seq<ArtifactEntry>, assets: Seq<Asset>) -> Seq<UploadTask>
    decreases entries.len(),
{
    if entries.len() == 0 {
        Seq::empty()
    } else {
        let before = upload_tasks(entries.drop_last(), assets);
        match asset_name(entries.last()) {
            Some(name) => before + entry_tasks((entries.len() - 1) as usize, name, assets),
            None => before,
        }
    }
}

/// What an upload asks for next.
pub open spec fn upload_asked(run: UploadRun) -> UploadAction {
    if run.pending@.len() == 0 {
        UploadAction::Finish
    } else {
        match run.pending@[0] {
            UploadTask::ListAssets => UploadAction::ListAssets {
                release_id: run.release_id,
                per_page: 100,
            },
            UploadTask::ListArtifacts(_) => UploadAction::ListArtifacts,
            UploadTask::Read(position) => UploadAction::Read { position },
            UploadTask::Delete(id, name) => UploadAction::Delete { id, name },
            UploadTask::Upload(position, name) => UploadAction::Upload {
                release_id: run.release_id,
                position,
                name,
            },
        }
    }
}

/// What a reply makes of an upload.
pub open spec fn upload_answered(
    run: UploadRun,
    reply: UploadReply,
    r: Result<UploadRun, UploadError>,
) -> bool {
    if run.pending@.len() == 0 {
        r == Err::<UploadRun, UploadError>(UploadError::UnexpectedReply)
    } else {
        let rest = run.pending@.skip(1);
        match (run.pending@[0], reply) {
            (UploadTask::ListAssets, UploadReply::Assets(assets)) => {
                &&& r matches Ok(next)
                &&& next.release_id == run.release_id
                &&& next.pending@ == seq![UploadTask::ListArtifacts(assets)] + rest
                &&& next.uploaded == run.uploaded
            },
            (UploadTask::ListArtifacts(assets), UploadReply::Entries(entries)) => {
                &&& r matches Ok(next)
                &&& next.release_id == run.release_id
                &&& next.pending@ == upload_tasks(entries@, assets@) + rest
                &&& next.uploaded == run.uploaded
            },
            (UploadTask::Read(_), UploadReply::Done)
            | (UploadTask::Delete(_, _), UploadReply::Done) => {
                &&& r matches Ok(next)
                &&& next.release_id == run.release_id
                &&& next.pending@ == rest
                &&& next.uploaded == run.uploaded
            },
            (UploadTask::Upload(_, name), UploadReply::Done) => {
                &&& r matches Ok(next)
                &&& next.release_id == run.release_id
                &&& next.pending@ == rest
                &&& next.uploaded@ == run.uploaded@.push(name)
            },
            (UploadTask::ListAssets, UploadReply::Failed { message }) => r == Err::<
                UploadRun,
                UploadError,
            >(UploadError::ListAssets { release_id: run.release_id, message }),
            (UploadTask::ListArtifacts(_), UploadReply::DirFailed { path, message }) => r == Err::<
                UploadRun,
                UploadError,
            >(UploadError::ListArtifacts { path, message }),
            (UploadTask::Read(_), UploadReply::FileFailed { step, path, message }) => r == Err::<
                UploadRun,
                UploadError,
            >(UploadError::ReadArtifact { step, path, message }),
            (UploadTask::Delete(_, name), UploadReply::Failed { message }) => r == Err::<
                UploadRun,
                UploadError,
            >(UploadError::DeleteAsset { name, message }),
            (UploadTask::Upload(_, name), UploadReply::Failed { message }) => r == Err::<
                UploadRun,
                UploadError,
            >(UploadError::UploadAsset { name, message }),
            _ => r == Err::<UploadRun, UploadError>(UploadError::UnexpectedReply),
        }
    }
}

/// The position of the first file with that name, if there is one.
fn find_named(assets: &[Asset], name: &str) -> (r: Option<usize>)
    ensures
        match r {
            Some(i) => first_named(assets@, name@) == Some(i as int) && i < assets.len(),
            None => first_named(assets@, name@) is None,
        },
{
    let mut found: Option<usize> = None;
    let mut i: usize = 0;
    while i < assets.len()
        invariant
            i <= assets.len(),
            match found {
                Some(k) => first_named(assets@.take(i as int), name@) == Some(k as int) && k < i,
                None => first_named(assets@.take(i as int), name@) is None,
            },
        decreases assets.len() - i,
    {
        assert(assets@.take(i + 1).drop_last() =~= assets@.take(i as int));
        if found.is_none() && text::same_text(assets[i].name.as_str(), name) {
            found = Some(i);
        }
        i += 1;
    }
    assert(assets@.take(i as int) =~= assets@);
    found
}

/// The steps that upload the artifacts in place of the files of the same names.
fn plan_uploads(entries: &[ArtifactEntry], assets: &[Asset]) -> (r: Vec<UploadTask>)
    ensures
        r@ == upload_tasks(entries@, assets@),
{
    let mut tasks: Vec<UploadTask> = Vec::new();
    let mut i: usize = 0;
    assert(tasks@ =~= upload_tasks(entries@.take(0), assets@));
    while i < entries.len()
        invariant
            i <= entries.len(),
            tasks@ == upload_tasks(entries@.take(i as int), assets@),
        decreases entries.len() - i,
    {
        assert(entries@.take(i + 1).drop_last() =~= entries@.take(i as int));
        if entries[i].is_file {
            if let Some(name) = &entries[i].name {
                tasks.push(UploadTask::Read(i));
                if let Some(k) = find_named(assets, name.as_str()) {
                    tasks.push(UploadTask::Delete(assets[k].id, assets[k].name.clone()));
                }
                tasks.push(UploadTask::Upload(i, name.clone()));
                assert(tasks@ =~= upload_tasks(entries@.take(i as int), assets@) + entry_tasks(
                    i,
                    *name,
                    assets@,
                ));
            }
        }
        i += 1;
    }
    assert(entries@.take(i as int) =~= entries@);
    tasks
}

/// An upload of all artifacts to a release, at its beginning. A file of the release that has
/// the name of an artifact is deleted before the artifact is uploaded.
pub fn upload_artifacts_to_release(release_id: u64) -> (r: UploadRun)
    ensures
        r.release_id == release_id,
        r.pending@ == seq![UploadTask::ListAssets],
        r.uploaded@ == Seq::<String>::empty(),
{
    let mut pending: Vec<UploadTask> = Vec::new();
    pending.push(UploadTask::ListAssets);
    assert(pending@ =~= seq![UploadTask::ListAssets]);
    UploadRun { release_id, pending, uploaded: Vec::new() }
}

impl UploadRun {
    /// What the upload asks for next.
    pub fn request(&self) -> (r: UploadAction)
        ensures
            r == upload_asked(*self),
    {
        if self.pending.len() == 0 {
            return UploadAction::Finish;
        }
        match &self.pending[0] {
            UploadTask::ListAssets => UploadAction::ListAssets {
                release_id: self.release_id,
                per_page: 100,
            },
            UploadTask::ListArtifacts(_) => UploadAction::ListArtifacts,
            UploadTask::Read(position) => UploadAction::Read { position: *position },
            UploadTask::Delete(id, name) => UploadAction::Delete { id: *id, name: name.clone() },
            UploadTask::Upload(position, name) => UploadAction::Upload {
                release_id: self.release_id,
                position: *position,
                name: name.clone(),
            },
        }
    }

    /// The upload after the reply to what it asked for.
    pub fn reply(self, reply: UploadReply) -> (r: Result<UploadRun, UploadError>)
        ensures
            upload_answered(self, reply, r),
    {
        let ghost before = self.pending@;
        let mut run = self;
        if run.pending.len() == 0 {
            return Err(UploadError::UnexpectedReply);
        }
        let task = run.pending.remove(0);
        assert(run.pending@ =~= before.skip(1));
        match (task, reply) {
            (UploadTask::ListAssets, UploadReply::Assets(assets)) => {
                let mut pending: Vec<UploadTask> = Vec::new();
                pending.push(UploadTask::ListArtifacts(assets));
                pending.append(&mut run.pending);
                run.pending = pending;
                assert(run.pending@ =~= seq![UploadTask::ListArtifacts(assets)] + before.skip(1));
                Ok(run)
            },
            (UploadTask::ListArtifacts(assets), UploadReply::Entries(entries)) => {
                let mut pending = plan_uploads(entries.as_slice(), assets.as_slice());
                pending.append(&mut run.pending);
                run.pending = pending;
                Ok(run)
            },
            (UploadTask::Read(_), UploadReply::Done) => Ok(run),
            (UploadTask::Delete(_, _), UploadReply::Done) => Ok(run),
            (UploadTask::Upload(_, name), UploadReply::Done) => {
                run.uploaded.push(name);
                Ok(run)
            },
            (UploadTask::ListAssets, UploadReply::Failed { message }) => Err(
                UploadError::ListAssets { release_id: run.release_id, message },
            ),
            (UploadTask::ListArtifacts(_), UploadReply::DirFailed { path, message }) => Err(
                UploadError::ListArtifacts { path, message },
            ),
            (UploadTask::Read(_), UploadReply::FileFailed { step, path, message }) => Err(
                UploadError::ReadArtifact { step, path, message },
            ),
            (UploadTask::Delete(_, name), UploadReply::Failed { message }) => Err(
                UploadError::DeleteAsset { name, message },
            ),
            (UploadTask::Upload(_, name), UploadReply::Failed { message }) => Err(
                UploadError::UploadAsset { name, message },
            ),
            _ => Err(UploadError::UnexpectedReply),
        }
    }

    /// The names of the files that were uploaded, in order.
    pub fn finish(self) -> (r: Vec<String>)
        ensures
            r@ == self.uploaded@,
    {
        self.uploaded
    }
}

/// What `first_named` finds has that name.
pub proof fn first_named_is_named(assets: Seq<Asset>, name: Seq<char>)
    ensures
        match first_named(assets, name) {
            Some(i) => 0 <= i < assets.len() && assets[i].name@ == name && forall|j: int|
                0 <= j < i ==> (#[trigger] assets[j]).name@ != name,
            None => forall|j: int| 0 <= j < assets.len() ==> (#[trigger] assets[j]).name@ != name,
        },
    decreases assets.len(),
{
    if assets.len() > 0 {
        let inner = assets.drop_last();
        first_named_is_named(inner, name);
        assert forall|j: int| 0 <= j < inner.len() implies inner[j] == #[trigger] assets[j] by {}
    }
}

/// The step deletes one of the files, one that has this name.
pub open spec fn deletes_named(task: UploadTask, name: Seq<char>, assets: Seq<Asset>) -> bool {
    match task {
        UploadTask::Delete(id, deleted) => deleted@ == name && exists|j: int|
            0 <= j < assets.len() && (#[trigger] assets[j]).id == id && assets[j].name@ == name,
        _ => false,
    }
}

/// The step uploads under this name.
pub open spec fn uploads_as(task: UploadTask, name: Seq<char>) -> bool {
    match task {
        UploadTask::Upload(_, uploaded) => uploaded@ == name,
        _ => false,
    }
}

/// An artifact that has the name of a file of the release is uploaded right after that file was
/// deleted, and no other file is deleted.
pub proof fn duplicates_are_replaced(entries: Seq<ArtifactEntry>, assets: Seq<Asset>, k: int)
    requires
        0 <= k < upload_tasks(entries, assets).len(),
    ensures
        ({
            let tasks = upload_tasks(entries, assets);
            &&& tasks[k] matches UploadTask::Upload(_, name) ==> {
                if exists|j: int| 0 <= j < assets.len() && (#[trigger] assets[j]).name@ == name@ {
                    k > 0 && deletes_named(tasks[k - 1], name@, assets)
                } else {
                    k > 0 && tasks[k - 1] is Read
                }
            }
            &&& tasks[k] matches UploadTask::Delete(_, name) ==> k + 1 < tasks.len()
                && uploads_as(tasks[k + 1], name@)
        }),
    decreases entries.len(),
{
    let tasks = upload_tasks(entries, assets);
    let before = upload_tasks(entries.drop_last(), assets);
    if k < before.len() {
        assert(tasks[k] == before[k]);
        duplicates_are_replaced(entries.drop_last(), assets, k);
        if k > 0 {
            assert(tasks[k - 1] == before[k - 1]);
        }
        if k + 1 < before.len() {
            assert(tasks[k + 1] == before[k + 1]);
        }
    } else {
        let name = asset_name(entries.last())->0;
        let own = entry_tasks((entries.len() - 1) as usize, name, assets);
        first_named_is_named(assets, name@);
        let m = k - before.len();
        assert(tasks[k] == own[m]);
        if m > 0 {
            assert(tasks[k - 1] == own[m - 1]);
        }
        if m + 1 < own.len() {
            assert(tasks[k + 1] == own[m + 1]);
        }
    }
}

/// The names under which entries are uploaded, in order.
pub open spec fn artifact_names(entries: Seq<ArtifactEntry>) -> Seq<String>
    decreases entries.len(),
{
    if entries.len() == 0 {
        Seq::empty()
    } else {
        let before = artifact_names(entries.drop_last());
        match asset_name(entries.last()) {
            Some(name) => before.push(name),
            None => before,
        }
    }
}

/// The names under which these steps upload, in order.
spec fn names_to_come(tasks: Seq<UploadTask>) -> Seq<String>
    decreases tasks.len(),
{
    if tasks.len() == 0 {
        Seq::empty()
    } else {
        let rest = names_to_come(tasks.skip(1));
        match tasks[0] {
            UploadTask::Upload(_, name) => seq![name] + rest,
            _ => rest,
        }
    }
}

proof fn names_to_come_add(a: Seq<UploadTask>, b: Seq<UploadTask>)
    ensures
        names_to_come(a + b) == names_to_come(a) + names_to_come(b),
    decreases a.len(),
{
    if a.len() == 0 {
        assert(a + b =~= b);
        assert(names_to_come(a) + names_to_come(b) =~= names_to_come(b));
    } else {
        assert((a + b).skip(1) =~= a.skip(1) + b);
        names_to_come_add(a.skip(1), b);
        assert(names_to_come(a + b) =~= names_to_come(a) + names_to_come(b));
    }
}

proof fn planned_names(entries: Seq<ArtifactEntry>, assets: Seq<Asset>)
    ensures
        names_to_come(upload_tasks(entries, assets)) == artifact_names(entries),
    decreases entries.len(),
{
    if entries.len() > 0 {
        let before = upload_tasks(entries.drop_last(), assets);
        planned_names(entries.drop_last(), assets);
        if let Some(name) = asset_name(entries.last()) {
            let own = entry_tasks((entries.len() - 1) as usize, name, assets);
            names_to_come_add(before, own);
            let last = own.skip(own.len() - 1);
            assert(last =~= seq![own.last()]);
            reveal_with_fuel(names_to_come, 4);
            assert(own.skip(1).skip(1).len() == own.len() - 2);
            assert(names_to_come(own) =~= seq![name]);
            assert(artifact_names(entries.drop_last()) + seq![name] =~= artifact_names(entries));
        }
    }
}

/// An upload to this release, from its beginning, step by step: these are the files that the
/// release had, and these are the artifacts.
pub open spec fn is_upload_course(
    release_id: u64,
    assets: Vec<Asset>,
    entries: Vec<ArtifactEntry>,
    course: Seq<UploadRun>,
) -> bool {
    &&& course.len() >= 3
    &&& course[0].release_id == release_id
    &&& course[0].pending@ == seq![UploadTask::ListAssets]
    &&& course[0].uploaded@ == Seq::<String>::empty()
    &&& upload_answered(course[0], UploadReply::Assets(assets), Ok(course[1]))
    &&& upload_answered(course[1], UploadReply::Entries(entries), Ok(course[2]))
    &&& forall|i: int, j: int|
        2 <= i && j == i + 1 && j < course.len() ==> upload_answered(
            #[trigger] course[i],
            UploadReply::Done,
            Ok(#[trigger] course[j]),
        )
}

proof fn upload_progress(
    release_id: u64,
    assets: Vec<Asset>,
    entries: Vec<ArtifactEntry>,
    course: Seq<UploadRun>,
    i: int,
)
    requires
        is_upload_course(release_id, assets, entries, course),
        2 <= i < course.len(),
    ensures
        course[i].release_id == release_id,
        course[i].uploaded@ + names_to_come(course[i].pending@) == artifact_names(entries@),
    decreases i,
{
    if i == 2 {
        planned_names(entries@, assets@);
        assert(course[0].pending@.skip(1) =~= Seq::empty());
        assert(course[1].pending@ =~= seq![UploadTask::ListArtifacts(assets)]);
        assert(course[1].pending@.skip(1) =~= Seq::empty());
        assert(course[2].pending@ =~= upload_tasks(entries@, assets@));
        assert(course[2].uploaded@ + artifact_names(entries@) =~= artifact_names(entries@));
    } else {
        upload_progress(release_id, assets, entries, course, i - 1);
        let before = course[i - 1];
        let after = course[i];
        assert(upload_answered(before, UploadReply::Done, Ok(after)));
        assert(after.uploaded@ + names_to_come(after.pending@) =~= before.uploaded@
            + names_to_come(before.pending@));
    }
}

/// An upload that ends has uploaded every artifact that is a file with a Unicode name, in
/// order, and nothing else.
pub proof fn all_artifacts_are_uploaded(
    release_id: u64,
    assets: Vec<Asset>,
    entries: Vec<ArtifactEntry>,
    course: Seq<UploadRun>,
)
    requires
        is_upload_course(release_id, assets, entries, course),
        upload_asked(course.last()) is Finish,
    ensures
        course.last().uploaded@ == artifact_names(entries@),
{
    upload_progress(release_id, assets, entries, course, course.len() - 1);
    assert(course.last().uploaded@ + Seq::<String>::empty() =~= course.last().uploaded@);
}

} // verus!
