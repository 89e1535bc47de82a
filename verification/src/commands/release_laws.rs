//! What holds of tags and of uploads, said in terms of templates, directories and releases.
use vstd::prelude::*;

use super::release_utils;
use super::release_utils::{
    ArtifactEntry, Asset, FileStep, UploadAction, UploadError, UploadReply, UploadRun, UploadTask,
};
use crate::text;

verus! {

/// A piece of a template for tags.
pub enum Piece {
    /// Text in which no brace opens.
    Plain(Seq<char>),
    /// The place for the package name.
    Name,
    /// The place for the version.
    Version,
}

/// A template made of these pieces, with `name` and `version` in their places.
pub open spec fn assembled(pieces: Seq<Piece>, name: Seq<char>, version: Seq<char>) -> Seq<char>
    decreases pieces.len(),
{
    if pieces.len() == 0 {
        Seq::empty()
    } else {
        (match pieces[0] {
            Piece::Plain(s) => s,
            Piece::Name => name,
            Piece::Version => version,
        }) + assembled(pieces.skip(1), name, version)
    }
}

/// No brace opens in the plain pieces.
pub open spec fn no_stray_brace(pieces: Seq<Piece>) -> bool {
    forall|i: int|
        0 <= i < pieces.len() ==> match #[trigger] pieces[i] {
            Piece::Plain(s) => !s.contains('{'),
            _ => true,
        }
}

proof fn marks_begin_with_a_brace()
    ensures
        "{package_name}"@.len() == 14,
        "{package_name}"@[0] == '{',
        "{package_name}"@[1] == 'p',
        "{version}"@.len() == 9,
        "{version}"@[0] == '{',
        "{version}"@[1] == 'v',
        forall|i: int| 0 < i < 9 ==> #[trigger] "{version}"@[i] != '{',
{
    reveal_strlit("{package_name}");
    reveal_strlit("{version}");
}

proof fn name_mark_skips_version_mark(rest: Seq<char>, name: Seq<char>)
    ensures
        text::replaced("{version}"@ + rest, "{package_name}"@, name) == "{version}"@
            + text::replaced(rest, "{package_name}"@, name),
{
    marks_begin_with_a_brace();
    let mark = "{version}"@;
    let pat = "{package_name}"@;
    let all = mark + rest;
    if text::occurs_at(all, pat, 0) {
        assert(all.subrange(0, 14)[1] == all[1]);
        assert(all[1] == mark[1]);
    }
    let tail = mark.skip(1);
    assert(all.skip(1) =~= tail + rest);
    assert(!tail.contains('{')) by {
        if tail.contains('{') {
            let i = choose|i: int| 0 <= i < tail.len() && tail[i] == '{';
            assert(mark[i + 1] == '{');
        }
    }
    text::replaced_after(tail, rest, pat, name);
    assert(seq![all[0]] + (tail + text::replaced(rest, pat, name)) =~= mark + text::replaced(
        rest,
        pat,
        name,
    ));
}

proof fn names_are_filled_in(pieces: Seq<Piece>, name: Seq<char>)
    requires
        no_stray_brace(pieces),
    ensures
        text::replaced(
            assembled(pieces, "{package_name}"@, "{version}"@),
            "{package_name}"@,
            name,
        ) == assembled(pieces, name, "{version}"@),
    decreases pieces.len(),
{
    let pat = "{package_name}"@;
    if pieces.len() > 0 {
        marks_begin_with_a_brace();
        let rest = pieces.skip(1);
        assert forall|i: int| 0 <= i < rest.len() implies match #[trigger] rest[i] {
            Piece::Plain(s) => !s.contains('{'),
            _ => true,
        } by {
            assert(rest[i] == pieces[i + 1]);
        }
        names_are_filled_in(rest, name);
        let tail = assembled(rest, pat, "{version}"@);
        match pieces[0] {
            Piece::Plain(s) => {
                text::replaced_after(s, tail, pat, name);
            },
            Piece::Name => {
                text::replaced_leading(tail, pat, name);
            },
            Piece::Version => {
                name_mark_skips_version_mark(tail, name);
            },
        }
    }
}

proof fn versions_are_filled_in(pieces: Seq<Piece>, name: Seq<char>, version: Seq<char>)
    requires
        no_stray_brace(pieces),
        !name.contains('{'),
    ensures
        text::replaced(assembled(pieces, name, "{version}"@), "{version}"@, version)
            == assembled(pieces, name, version),
    decreases pieces.len(),
{
    let pat = "{version}"@;
    if pieces.len() > 0 {
        marks_begin_with_a_brace();
        let rest = pieces.skip(1);
        assert forall|i: int| 0 <= i < rest.len() implies match #[trigger] rest[i] {
            Piece::Plain(s) => !s.contains('{'),
            _ => true,
        } by {
            assert(rest[i] == pieces[i + 1]);
        }
        versions_are_filled_in(rest, name, version);
        let tail = assembled(rest, name, pat);
        match pieces[0] {
            Piece::Plain(s) => {
                text::replaced_after(s, tail, pat, version);
            },
            Piece::Name => {
                text::replaced_after(name, tail, pat, version);
            },
            Piece::Version => {
                text::replaced_leading(tail, pat, version);
            },
        }
    }
}

/// A tag is its template with every place filled in, however many there are and in whatever
/// order, as long as no other brace opens, in the template or in the package name.
pub proof fn tag_fills_every_place_in(
    pieces: Seq<Piece>,
    package_name: Seq<char>,
    version: Seq<char>,
)
    requires
        no_stray_brace(pieces),
        !package_name.contains('{'),
    ensures
        release_utils::formatted_tag(
            assembled(pieces, "{package_name}"@, "{version}"@),
            package_name,
            version,
        ) == assembled(pieces, package_name, version),
{
    names_are_filled_in(pieces, package_name);
    versions_are_filled_in(pieces, package_name, version);
}

proof fn entry_tasks_by_position(position: usize, name: String, assets: Seq<Asset>)
    ensures
        ({
            let own = release_utils::entry_tasks(position, name, assets);
            &&& 2 <= own.len() <= 3
            &&& own[0] == UploadTask::Read(position)
            &&& own.last() == UploadTask::Upload(position, name)
            &&& own.len() == 3 ==> own[1] is Delete
        }),
{
}

/// Every artifact is uploaded with its own content: what is uploaded under a name was read last
/// before that, from the entry of that name, which is a file; only deletions stand between.
pub proof fn uploads_read_their_own_artifact(
    entries: Seq<ArtifactEntry>,
    assets: Seq<Asset>,
    k: int,
)
    requires
        entries.len() <= usize::MAX,
        0 <= k < release_utils::upload_tasks(entries, assets).len(),
    ensures
        ({
            let tasks = release_utils::upload_tasks(entries, assets);
            tasks[k] matches UploadTask::Upload(position, name) ==> {
                &&& position < entries.len()
                &&& entries[position as int].is_file
                &&& entries[position as int].name == Some(name)
                &&& exists|j: int|
                    0 <= j < k && #[trigger] tasks[j] == UploadTask::Read(position) && (forall|
                        m: int,
                    |
                        j < m < k ==> (#[trigger] tasks[m]) is Delete)
            }
        }),
    decreases entries.len(),
{
    let tasks = release_utils::upload_tasks(entries, assets);
    let inner = entries.drop_last();
    let before = release_utils::upload_tasks(inner, assets);
    if k < before.len() {
        uploads_read_their_own_artifact(inner, assets, k);
        assert(tasks[k] == before[k]);
        if let UploadTask::Upload(position, name) = tasks[k] {
            let j = choose|j: int|
                0 <= j < k && #[trigger] before[j] == UploadTask::Read(position) && (forall|m: int|
                    j < m < k ==> (#[trigger] before[m]) is Delete);
            assert(tasks[j] == before[j]);
            assert forall|m: int| j < m < k implies (#[trigger] tasks[m]) is Delete by {
                assert(tasks[m] == before[m]);
            }
        }
    } else {
        let name = release_utils::asset_name(entries.last())->0;
        let position = (entries.len() - 1) as usize;
        let own = release_utils::entry_tasks(position, name, assets);
        entry_tasks_by_position(position, name, assets);
        assert(tasks[k] == own[k - before.len()]);
        assert(tasks[before.len() as int] == own[0]);
        assert forall|m: int| before.len() < m < k implies (#[trigger] tasks[m]) is Delete by {
            assert(tasks[m] == own[m - before.len()]);
        }
    }
}

/// Every file with a Unicode name is uploaded, under that name.
pub proof fn every_named_file_is_uploaded(entries: Seq<ArtifactEntry>, assets: Seq<Asset>, i: int)
    requires
        entries.len() <= usize::MAX,
        0 <= i < entries.len(),
        entries[i].is_file,
        entries[i].name is Some,
    ensures
        release_utils::upload_tasks(entries, assets).contains(
            UploadTask::Upload(i as usize, entries[i].name->0),
        ),
    decreases entries.len(),
{
    let tasks = release_utils::upload_tasks(entries, assets);
    let inner = entries.drop_last();
    let before = release_utils::upload_tasks(inner, assets);
    let wanted = UploadTask::Upload(i as usize, entries[i].name->0);
    if i < inner.len() {
        every_named_file_is_uploaded(inner, assets, i);
        let k = choose|k: int| 0 <= k < before.len() && before[k] == wanted;
        assert(tasks[k] == before[k]);
    } else {
        let own = release_utils::entry_tasks(i as usize, entries[i].name->0, assets);
        assert(tasks =~= before + own);
        assert(tasks[tasks.len() - 1] == own.last());
    }
}

/// Artifacts are uploaded in the order of the directory, none twice.
pub proof fn uploads_keep_the_order(
    entries: Seq<ArtifactEntry>,
    assets: Seq<Asset>,
    a: int,
    b: int,
)
    requires
        entries.len() <= usize::MAX,
        0 <= a < b < release_utils::upload_tasks(entries, assets).len(),
    ensures
        match (
            release_utils::upload_tasks(entries, assets)[a],
            release_utils::upload_tasks(entries, assets)[b],
        ) {
            (UploadTask::Upload(first, _), UploadTask::Upload(second, _)) => first < second,
            _ => true,
        },
    decreases entries.len(),
{
    let tasks = release_utils::upload_tasks(entries, assets);
    let inner = entries.drop_last();
    let before = release_utils::upload_tasks(inner, assets);
    if b < before.len() {
        uploads_keep_the_order(inner, assets, a, b);
        assert(tasks[a] == before[a] && tasks[b] == before[b]);
    } else {
        let name = release_utils::asset_name(entries.last())->0;
        let position = (entries.len() - 1) as usize;
        let own = release_utils::entry_tasks(position, name, assets);
        assert(tasks[b] == own[b - before.len()]);
        if a < before.len() {
            uploads_read_their_own_artifact(inner, assets, a);
            assert(tasks[a] == before[a]);
        } else {
            assert(tasks[a] == own[a - before.len()]);
        }
    }
}

/// The step is one of an upload of single artifacts, and what it leads to follows it: a read is
/// followed by the upload of what was read, with at most one deletion between; a deletion is of
/// the first file of the release that has the name of the artifact uploaded next.
pub proof fn planned_step_by_step(entries: Seq<ArtifactEntry>, assets: Seq<Asset>, k: int)
    requires
        0 <= k < release_utils::upload_tasks(entries, assets).len(),
    ensures
        ({
            let tasks = release_utils::upload_tasks(entries, assets);
            match tasks[k] {
                UploadTask::Read(position) => {
                    ||| k + 1 < tasks.len() && match tasks[k + 1] {
                        UploadTask::Upload(p, _) => p == position,
                        _ => false,
                    }
                    ||| k + 2 < tasks.len() && tasks[k + 1] is Delete && match tasks[k + 2] {
                        UploadTask::Upload(p, _) => p == position,
                        _ => false,
                    }
                },
                UploadTask::Delete(id, name) => {
                    &&& k + 1 < tasks.len()
                    &&& match tasks[k + 1] {
                        UploadTask::Upload(_, n) => n@ == name@,
                        _ => false,
                    }
                    &&& exists|j: int|
                        0 <= j < assets.len() && (#[trigger] assets[j]).id == id && assets[j].name
                            == name && (forall|m: int|
                            0 <= m < j ==> (#[trigger] assets[m]).name@ != name@)
                },
                UploadTask::Upload(_, name) => (exists|j: int|
                    0 <= j < assets.len() && (#[trigger] assets[j]).name@ == name@) ==> k > 0
                    && tasks[k - 1] is Delete,
                _ => false,
            }
        }),
    decreases entries.len(),
{
    let tasks = release_utils::upload_tasks(entries, assets);
    let inner = entries.drop_last();
    let before = release_utils::upload_tasks(inner, assets);
    if k < before.len() {
        planned_step_by_step(inner, assets, k);
        assert(tasks[k] == before[k]);
        if k > 0 {
            assert(tasks[k - 1] == before[k - 1]);
        }
        if k + 1 < before.len() {
            assert(tasks[k + 1] == before[k + 1]);
        }
        if k + 2 < before.len() {
            assert(tasks[k + 2] == before[k + 2]);
        }
    } else {
        let name = release_utils::asset_name(entries.last())->0;
        let position = (entries.len() - 1) as usize;
        let own = release_utils::entry_tasks(position, name, assets);
        release_utils::first_named_is_named(assets, name@);
        let m = k - before.len();
        assert(tasks[k] == own[m]);
        if m > 0 {
            assert(tasks[k - 1] == own[m - 1]);
        }
        if m + 1 < own.len() {
            assert(tasks[k + 1] == own[m + 1]);
        }
        if m + 2 < own.len() {
            assert(tasks[k + 2] == own[m + 2]);
        }
    }
}

proof fn course_follows_the_plan(
    release_id: u64,
    assets: Vec<Asset>,
    entries: Vec<ArtifactEntry>,
    course: Seq<UploadRun>,
    i: int,
)
    requires
        release_utils::is_upload_course(release_id, assets, entries, course),
        2 <= i < course.len(),
    ensures
        course[i].release_id == release_id,
        i - 2 <= release_utils::upload_tasks(entries@, assets@).len(),
        course[i].pending@ == release_utils::upload_tasks(entries@, assets@).skip(i - 2),
    decreases i,
{
    let tasks = release_utils::upload_tasks(entries@, assets@);
    if i == 2 {
        assert(course[0].pending@.skip(1) =~= Seq::empty());
        assert(course[1].pending@ =~= seq![UploadTask::ListArtifacts(assets)]);
        assert(course[1].pending@.skip(1) =~= Seq::empty());
        assert(course[2].pending@ =~= tasks.skip(0));
    } else {
        course_follows_the_plan(release_id, assets, entries, course, i - 1);
        assert(release_utils::upload_answered(course[i - 1], UploadReply::Done, Ok(course[i])));
        assert(tasks.skip(i - 3).skip(1) =~= tasks.skip(i - 2));
    }
}

/// What an upload asks for from its beginning on: first the files of its own release, then the
/// artifacts.
pub proof fn upload_begins_with_two_listings(
    release_id: u64,
    assets: Vec<Asset>,
    entries: Vec<ArtifactEntry>,
    course: Seq<UploadRun>,
)
    requires
        release_utils::is_upload_course(release_id, assets, entries, course),
    ensures
        match release_utils::upload_asked(course[0]) {
            UploadAction::ListAssets { release_id: id, per_page } => id == release_id && per_page
                > 0,
            _ => false,
        },
        release_utils::upload_asked(course[1]) is ListArtifacts,
{
    assert(course[0].pending@.skip(1) =~= Seq::empty());
    assert(course[1].pending@ =~= seq![UploadTask::ListArtifacts(assets)]);
}

/// Whatever an upload asks to upload is an artifact, goes to its own release under the
/// artifact's name, and is what it asked to read last before that.
pub proof fn asked_uploads_are_right(
    release_id: u64,
    assets: Vec<Asset>,
    entries: Vec<ArtifactEntry>,
    course: Seq<UploadRun>,
    i: int,
)
    requires
        release_utils::is_upload_course(release_id, assets, entries, course),
        2 <= i < course.len(),
    ensures
        release_utils::upload_asked(course[i]) matches UploadAction::Upload {
            release_id: id,
            position,
            name,
        } ==> {
            &&& id == release_id
            &&& position < entries@.len()
            &&& entries@[position as int].is_file
            &&& entries@[position as int].name == Some(name)
            &&& exists|j: int|
                2 <= j < i && release_utils::upload_asked(#[trigger] course[j]) == (
                UploadAction::Read { position }) && (forall|m: int|
                    j < m < i ==> release_utils::upload_asked(#[trigger] course[m]) is Delete)
        },
{
    let tasks = release_utils::upload_tasks(entries@, assets@);
    course_follows_the_plan(release_id, assets, entries, course, i);
    if course[i].pending@.len() > 0 {
        let k = i - 2;
        assert(course[i].pending@[0] == tasks[k]);
        assert(entries@.len() == entries.len());
        uploads_read_their_own_artifact(entries@, assets@, k);
        if let UploadTask::Upload(position, name) = tasks[k] {
            let j = choose|j: int|
                0 <= j < k && #[trigger] tasks[j] == UploadTask::Read(position) && (forall|m: int|
                    j < m < k ==> (#[trigger] tasks[m]) is Delete);
            course_follows_the_plan(release_id, assets, entries, course, j + 2);
            assert(course[j + 2].pending@[0] == tasks[j]);
            assert forall|m: int| j + 2 < m < i implies release_utils::upload_asked(
                #[trigger] course[m],
            ) is Delete by {
                course_follows_the_plan(release_id, assets, entries, course, m);
                assert(course[m].pending@[0] == tasks[m - 2]);
            }
        }
    }
}

/// An upload that ends has asked to upload every file with a Unicode name, to its own release
/// and under that name.
pub proof fn finished_upload_has_asked_for_every_file(
    release_id: u64,
    assets: Vec<Asset>,
    entries: Vec<ArtifactEntry>,
    course: Seq<UploadRun>,
    i: int,
)
    requires
        release_utils::is_upload_course(release_id, assets, entries, course),
        release_utils::upload_asked(course.last()) is Finish,
        0 <= i < entries@.len(),
        entries@[i].is_file,
        entries@[i].name is Some,
    ensures
        exists|j: int|
            2 <= j < course.len() && release_utils::upload_asked(#[trigger] course[j]) == (
            UploadAction::Upload {
                release_id,
                position: i as usize,
                name: entries@[i].name->0,
            }),
{
    let tasks = release_utils::upload_tasks(entries@, assets@);
    assert(entries@.len() == entries.len());
    every_named_file_is_uploaded(entries@, assets@, i);
    let k = choose|k: int|
        0 <= k < tasks.len() && tasks[k] == UploadTask::Upload(i as usize, entries@[i].name->0);
    course_follows_the_plan(release_id, assets, entries, course, course.len() - 1);
    assert(course.last().pending@.len() == 0);
    course_follows_the_plan(release_id, assets, entries, course, k + 2);
    assert(course[k + 2].pending@[0] == tasks[k]);
}

/// What an upload asks to delete is a file that its release has, the first of its name, and an
/// artifact of that name is uploaded next.
pub proof fn asked_deletions_are_right(
    release_id: u64,
    assets: Vec<Asset>,
    entries: Vec<ArtifactEntry>,
    course: Seq<UploadRun>,
    i: int,
)
    requires
        release_utils::is_upload_course(release_id, assets, entries, course),
        2 <= i < course.len(),
    ensures
        release_utils::upload_asked(course[i]) matches UploadAction::Delete { id, name } ==> {
            &&& exists|j: int|
                0 <= j < assets@.len() && (#[trigger] assets@[j]).id == id && assets@[j].name
                    == name && (forall|m: int|
                    0 <= m < j ==> (#[trigger] assets@[m]).name@ != name@)
            &&& i + 1 < course.len() ==> match release_utils::upload_asked(course[i + 1]) {
                UploadAction::Upload { name: uploaded, .. } => uploaded@ == name@,
                _ => false,
            }
        },
{
    let tasks = release_utils::upload_tasks(entries@, assets@);
    course_follows_the_plan(release_id, assets, entries, course, i);
    if course[i].pending@.len() > 0 {
        assert(course[i].pending@[0] == tasks[i - 2]);
        planned_step_by_step(entries@, assets@, i - 2);
        if i + 1 < course.len() {
            course_follows_the_plan(release_id, assets, entries, course, i + 1);
            if tasks[i - 2] is Delete {
                assert(course[i + 1].pending@[0] == tasks[i - 1]);
            }
        }
    }
}

/// No failure is passed over: an upload that is told of one stops, and says what failed.
pub proof fn failed_upload_stops(
    run: UploadRun,
    reply: UploadReply,
    r: Result<UploadRun, UploadError>,
)
    requires
        release_utils::upload_answered(run, reply, r),
        reply is Failed || reply is DirFailed || reply is FileFailed,
    ensures
        r is Err,
        match (release_utils::upload_asked(run), reply) {
            (UploadAction::Upload { name, .. }, UploadReply::Failed { message }) =>
                release_utils::upload_error_text(r->Err_0) == "Failed to upload asset: "@ + name@,
            (UploadAction::Delete { name, .. }, UploadReply::Failed { message }) =>
                release_utils::upload_error_text(r->Err_0) == "Failed to delete existing asset "@
                + name@,
            (UploadAction::ListAssets { release_id, .. }, UploadReply::Failed { message }) =>
                release_utils::upload_error_text(r->Err_0)
                == "Failed to list assets for release "@ + text::decimal(release_id as nat),
            (UploadAction::ListArtifacts, UploadReply::DirFailed { path, message }) =>
                release_utils::upload_error_text(r->Err_0)
                == "Failed to read artifact directory: "@ + path@,
            (UploadAction::Read { .. }, UploadReply::FileFailed { step, path, message }) =>
                release_utils::upload_error_text(r->Err_0) == (match step {
                FileStep::Stat => "Failed to stat "@,
                FileStep::Open => "Failed to open "@,
                FileStep::Read => "Failed to read "@,
            }) + path@,
            _ => r->Err_0 is UnexpectedReply,
        },
{
}

/// What was uploaded is noted under its name, once it was uploaded and not before.
pub proof fn uploaded_names_are_noted(
    run: UploadRun,
    reply: UploadReply,
    next: UploadRun,
)
    requires
        release_utils::upload_answered(run, reply, Ok(next)),
    ensures
        next.release_id == run.release_id,
        next.uploaded@ == match release_utils::upload_asked(run) {
            UploadAction::Upload { name, .. } => run.uploaded@.push(name),
            _ => run.uploaded@,
        },
{
}

/// The message of an error names the release, the path or the file, as it is given; what the
/// server or the system said is not part of it.
pub proof fn errors_name_what_failed(id: u64, path: String, name: String, message: String)
    ensures
        release_utils::upload_error_text(
            UploadError::ListAssets { release_id: id, message },
        ) == "Failed to list assets for release "@ + text::decimal(id as nat),
        release_utils::upload_error_text(
            UploadError::ListArtifacts { path, message },
        ) == "Failed to read artifact directory: "@ + path@,
        release_utils::upload_error_text(
            UploadError::ReadArtifact {
                step: FileStep::Stat,
                path,
                message,
            },
        ) == "Failed to stat "@ + path@,
        release_utils::upload_error_text(
            UploadError::ReadArtifact {
                step: FileStep::Open,
                path,
                message,
            },
        ) == "Failed to open "@ + path@,
        release_utils::upload_error_text(
            UploadError::ReadArtifact {
                step: FileStep::Read,
                path,
                message,
            },
        ) == "Failed to read "@ + path@,
        release_utils::upload_error_text(
            UploadError::DeleteAsset { name, message },
        ) == "Failed to delete existing asset "@ + name@,
        release_utils::upload_error_text(
            UploadError::UploadAsset { name, message },
        ) == "Failed to upload asset: "@ + name@,
{
}

/// A tag is its template with the package name put in wherever its place stands, from the left,
/// and then the version.
pub proof fn tag_is_filled_in_name_first(
    template: Seq<char>,
    package_name: Seq<char>,
    version: Seq<char>,
)
    ensures
        release_utils::formatted_tag(template, package_name, version) == text::replaced(
            text::replaced(template, "{package_name}"@, package_name),
            "{version}"@,
            version,
        ),
{
}

/// An upload takes the reply that answers what it asks for, and no other. A step that is done is
/// left behind; the files of the release are kept until the artifacts are listed. What is told of
/// a failure is passed on as it is.
pub proof fn upload_moves_on_with_each_answer(
    run: UploadRun,
    reply: UploadReply,
    r: Result<UploadRun, UploadError>,
)
    requires
        release_utils::upload_answered(run, reply, r),
        run.pending@.len() > 0,
    ensures
        ({
            let rest = run.pending@.skip(1);
            match (run.pending@[0], reply) {
                (UploadTask::ListAssets, UploadReply::Assets(assets)) => match r {
                    Ok(next) => next.pending@ == seq![UploadTask::ListArtifacts(assets)] + rest,
                    Err(_) => false,
                },
                (UploadTask::ListArtifacts(assets), UploadReply::Entries(entries)) => match r {
                    Ok(next) => next.pending@ == release_utils::upload_tasks(entries@, assets@)
                        + rest,
                    Err(_) => false,
                },
                (UploadTask::Read(_), UploadReply::Done)
                | (UploadTask::Delete(_, _), UploadReply::Done)
                | (UploadTask::Upload(_, _), UploadReply::Done) => match r {
                    Ok(next) => next.pending@ == rest,
                    Err(_) => false,
                },
                (UploadTask::ListAssets, UploadReply::Failed { message }) => match r {
                    Err(UploadError::ListAssets { release_id, message: m }) => release_id
                        == run.release_id && m == message,
                    _ => false,
                },
                (UploadTask::ListArtifacts(_), UploadReply::DirFailed { path, message }) =>
                match r {
                    Err(UploadError::ListArtifacts { path: p, message: m }) => p == path && m
                        == message,
                    _ => false,
                },
                (UploadTask::Read(_), UploadReply::FileFailed { step, path, message }) =>
                match r {
                    Err(UploadError::ReadArtifact { step: s, path: p, message: m }) => s == step
                        && p == path && m == message,
                    _ => false,
                },
                (UploadTask::Delete(_, name), UploadReply::Failed { message }) => match r {
                    Err(UploadError::DeleteAsset { name: n, message: m }) => n == name && m
                        == message,
                    _ => false,
                },
                (UploadTask::Upload(_, name), UploadReply::Failed { message }) => match r {
                    Err(UploadError::UploadAsset { name: n, message: m }) => n == name && m
                        == message,
                    _ => false,
                },
                _ => match r {
                    Err(error) => error is UnexpectedReply,
                    Ok(_) => false,
                },
            }
        }),
{
}

/// What is asked for is what the first step that is left needs, and an upload asks its own release
/// alone.
pub proof fn upload_asks_for_its_own_step(run: UploadRun)
    ensures
        run.pending@.len() == 0 ==> release_utils::upload_asked(run) is Finish,
        run.pending@.len() > 0 ==> release_utils::upload_asked(run) == match run.pending@[0] {
            UploadTask::ListAssets => UploadAction::ListAssets {
                release_id: run.release_id,
                per_page: 100,
            },
            UploadTask::ListArtifacts(_) => UploadAction::ListArtifacts,
            UploadTask::Read(position) => UploadAction::Read { position },
            UploadTask::Delete(id, name) => UploadAction::Delete { id, name },
            UploadTask::Upload(position, name) => UploadAction::Upload {
                release_id: run.release_id,
                position,
                name,
            },
        },
{
}

} // verus!
