//! What holds of a sync from its beginning to its end, whatever it is told on the way.
use vstd::prelude::*;

use super::error::SyncError;
use super::request::{ActionView, ArgView, Place, Reply, WalkedEntry};
use super::run;
use super::run::{RunView, SyncRun, Task};
use super::Options;

verus! {

/// Some reply leads from `before` to `after`.
pub open spec fn leads_to(before: RunView, after: RunView) -> bool {
    exists|reply: Reply, next: SyncRun| #[trigger]
        run::answered(before, reply, Ok::<SyncRun, SyncError>(next)) && next@ == after
}

/// A sync with these options, from its beginning, step by step.
pub open spec fn is_course(options: Options, course: Seq<RunView>) -> bool {
    &&& course.len() > 0
    &&& course[0] == run::started(options)
    &&& forall|i: int, j: int|
        0 <= i && j == i + 1 && j < course.len() ==> leads_to(#[trigger] course[i], #[trigger] course[j])
}

/// A pull request is to be opened.
pub open spec fn wants_pr(options: Options) -> bool {
    options.create_pr && !options.dry_run
}

/// The step may stand in a sync with these options and applications.
pub open spec fn fits(options: Options, apps: Seq<String>, task: Task) -> bool {
    match task {
        Task::FindApps => false,
        Task::CheckInfra
        | Task::CopyInfra
        | Task::CheckConfig
        | Task::CopyConfig
        | Task::ReadSourceManifest
        | Task::ReadTargetManifest(_)
        | Task::CheckLock => true,
        Task::CheckStale(app)
        | Task::CopyApp(app)
        | Task::CheckManifest(app)
        | Task::ReadManifest(app)
        | Task::WalkApp(app)
        | Task::ReadSource(app, _, _) => apps.contains(app),
        Task::RemoveStale(app) | Task::MakeAppDir(app) => !options.dry_run && apps.contains(app),
        Task::MakeConfigDir | Task::ReadConfig | Task::RemoveLock | Task::Relock =>
            !options.dry_run,
        Task::Write(place, _) => !options.dry_run && match place {
            Place::TargetManifest | Place::TargetConfig => true,
            Place::TargetAppManifest(app) | Place::TargetAppFile(app, _) => apps.contains(app),
            _ => false,
        },
        Task::ReadVersion => wants_pr(options) && options.branch_name is None,
        Task::Checkout | Task::Stage | Task::Commit | Task::Push | Task::OpenPr => wants_pr(
            options,
        ),
    }
}

/// The step leads to files that are transformed after the root manifest.
spec fn comes_later(task: Task) -> bool {
    task is CheckManifest || task is ReadManifest || task is WalkApp || task is ReadSource
}

/// The step leads to the transformed root manifest.
spec fn leads_to_root(task: Task) -> bool {
    task is ReadSourceManifest || task is ReadTargetManifest
}

/// The step at `k` leads to the root manifest, before any later file.
spec fn root_first(tasks: Seq<Task>, k: int) -> bool {
    &&& 0 <= k < tasks.len()
    &&& leads_to_root(tasks[k])
    &&& forall|j: int| 0 <= j < k ==> !comes_later(#[trigger] tasks[j])
}

/// What holds of a sync at every step.
spec fn sound(options: Options, run: RunView) -> bool {
    let finding = run.pending == seq![Task::FindApps];
    &&& run.dry_run == options.dry_run
    &&& run.create_pr == options.create_pr
    &&& run.base_branch == options.base_branch@
    &&& run.unnamed == (options.branch_name is None)
    &&& options.branch_name matches Some(name) ==> run.branch == name@
    &&& options.apps@.len() > 0 ==> !finding && run.apps == options.apps@
    &&& finding || forall|i: int|
        0 <= i < run.pending.len() ==> fits(options, run.apps, #[trigger] run.pending[i])
    &&& !wants_pr(options) ==> run.pr_url is None
    &&& wants_pr(options) ==> run.pr_url is Some || finding || (run.pending.len() > 0
        && run.pending.last() is OpenPr)
    &&& finding ==> run.transformed.len() == 0
    &&& finding || (run.transformed.len() == 0 && exists|k: int| root_first(run.pending, k)) || (
    run.transformed.len() > 0 && run.transformed[0] == Place::TargetManifest)
}

proof fn copies_fit(options: Options, apps: Seq<String>, some: Seq<String>)
    requires
        forall|i: int| 0 <= i < some.len() ==> apps.contains(#[trigger] some[i]),
    ensures
        forall|i: int|
            0 <= i < run::copies(some, options.dry_run).len() ==> fits(
                options,
                apps,
                #[trigger] run::copies(some, options.dry_run)[i],
            ) && !comes_later(run::copies(some, options.dry_run)[i]),
    decreases some.len(),
{
    if some.len() > 0 {
        let inner = run::copies(some.drop_last(), options.dry_run);
        copies_fit(options, apps, some.drop_last());
        assert(apps.contains(some[some.len() - 1]));
        let tasks = run::copies(some, options.dry_run);
        assert forall|i: int| 0 <= i < tasks.len() implies fits(options, apps, #[trigger] tasks[i])
            && !comes_later(tasks[i]) by {
            if i < inner.len() {
                assert(tasks[i] == inner[i]);
            }
        }
    }
}

proof fn plan_fits(options: Options, apps: Seq<String>)
    ensures
        ({
            let unnamed = options.branch_name is None;
            let tasks = run::plan(apps, options.dry_run, options.create_pr, unnamed);
            &&& forall|i: int| 0 <= i < tasks.len() ==> fits(options, apps, #[trigger] tasks[i])
            &&& wants_pr(options) ==> tasks.last() is OpenPr
            &&& tasks.len() > 0
            &&& exists|k: int| root_first(tasks, k)
        }),
{
    let unnamed = options.branch_name is None;
    let tasks = run::plan(apps, options.dry_run, options.create_pr, unnamed);
    copies_fit(options, apps, apps);
    let copying = run::copies(apps, options.dry_run);
    let n = apps.len();
    let c = copying.len();
    let tail = tasks.skip((n + c + 3 + n + n) as int);
    assert(tasks.subrange(n as int, (n + c) as int) =~= copying);
    assert(tail =~= seq![Task::CheckLock] + (if options.dry_run {
        Seq::empty()
    } else {
        seq![Task::Relock]
    }) + (if options.create_pr && !options.dry_run {
        run::pr_tasks(unnamed)
    } else {
        Seq::empty()
    }));
    assert forall|i: int| 0 <= i < tasks.len() implies fits(options, apps, #[trigger] tasks[i]) by {
        if i < n {
            assert(tasks[i] == Task::CheckStale(apps[i]));
        } else if i < n + c {
            assert(tasks[i] == copying[i - n]);
        } else if i < n + c + 3 {
        } else if i < n + c + 3 + n {
            assert(tasks[i] == Task::CheckManifest(apps[i - n - c - 3]));
        } else if i < n + c + 3 + n + n {
            assert(tasks[i] == Task::WalkApp(apps[i - n - c - 3 - n]));
        } else {
            assert(tasks[i] == tail[i - (n + c + 3 + n + n)]);
        }
    }
    let k = (n + c + 2) as int;
    assert(tasks[k] == Task::ReadSourceManifest);
    assert forall|j: int| 0 <= j < k implies !comes_later(#[trigger] tasks[j]) by {
        if n <= j < n + c {
            assert(tasks[j] == copying[j - n]);
        }
    }
    assert(root_first(tasks, k));
    assert(tasks.last() == tail.last());
}

proof fn sources_fit(options: Options, apps: Seq<String>, app: String, walked: Seq<WalkedEntry>)
    requires
        apps.contains(app),
    ensures
        forall|i: int|
            0 <= i < run::sources(app, walked).len() ==> fits(
                options,
                apps,
                #[trigger] run::sources(app, walked)[i],
            ),
    decreases walked.len(),
{
    if walked.len() > 0 {
        let inner = run::sources(app, walked.drop_last());
        sources_fit(options, apps, app, walked.drop_last());
        let tasks = run::sources(app, walked);
        assert forall|i: int| 0 <= i < tasks.len() implies fits(
            options,
            apps,
            #[trigger] tasks[i],
        ) by {
            if i < inner.len() {
                assert(tasks[i] == inner[i]);
            }
        }
    }
}

/// Steps that fit before steps that fit, with the order kept.
proof fn goes_on(options: Options, before: RunView, after: RunView, more: Seq<Task>)
    requires
        sound(options, before),
        before.pending != seq![Task::FindApps],
        before.pending.len() > 0,
        after.pending == more + before.pending.skip(1),
        after.apps == before.apps,
        forall|i: int| 0 <= i < more.len() ==> fits(options, before.apps, #[trigger] more[i]),
    ensures
        after.pending != seq![Task::FindApps],
        forall|i: int|
            0 <= i < after.pending.len() ==> fits(options, after.apps, #[trigger] after.pending[i]),
        before.pending.len() > 1 ==> after.pending.len() > 0 && after.pending.last()
            == before.pending.last(),
        (exists|k: int| root_first(before.pending, k)) && !leads_to_root(before.pending[0])
            ==> (!(exists|i: int| 0 <= i < more.len() && comes_later(#[trigger] more[i]))
            ==> exists|k: int| root_first(after.pending, k)),
{
    assert forall|i: int| 0 <= i < after.pending.len() implies fits(
        options,
        after.apps,
        #[trigger] after.pending[i],
    ) by {
        if i < more.len() {
            assert(after.pending[i] == more[i]);
        } else {
            assert(after.pending[i] == before.pending[i - more.len() + 1]);
        }
    }
    if after.pending == seq![Task::FindApps] {
        assert(after.pending[0] == Task::FindApps);
        assert(fits(options, after.apps, after.pending[0]));
    }
    if (exists|k: int| root_first(before.pending, k)) && !leads_to_root(before.pending[0]) && !(
    exists|i: int| 0 <= i < more.len() && comes_later(#[trigger] more[i])) {
        let k = choose|k: int| root_first(before.pending, k);
        let moved = k - 1 + more.len();
        assert(after.pending[moved] == before.pending[k]);
        assert forall|j: int| 0 <= j < moved implies !comes_later(#[trigger] after.pending[j]) by {
            if j < more.len() {
                assert(after.pending[j] == more[j]);
            } else {
                assert(after.pending[j] == before.pending[j - more.len() + 1]);
            }
        }
        assert(root_first(after.pending, moved));
    }
}

proof fn begins_sound(options: Options)
    ensures
        sound(options, run::started(options)),
{
    plan_fits(options, options.apps@);
    let tasks = run::started(options).pending;
    if options.apps@.len() > 0 {
        assert(fits(options, options.apps@, tasks[0]));
        assert(tasks != seq![Task::FindApps]);
    }
}

proof fn stays_sound(options: Options, before: RunView, reply: Reply, next: SyncRun)
    requires
        sound(options, before),
        run::answered(before, reply, Ok::<SyncRun, SyncError>(next)),
    ensures
        sound(options, next@),
{
    let after = next@;
    let task = before.pending[0];
    if before.pending == seq![Task::FindApps] {
        plan_fits(options, after.apps);
        assert(task is FindApps);
        assert(reply is Entries);
        let tasks = run::plan(after.apps, before.dry_run, before.create_pr, before.unnamed);
        assert(after.pending =~= tasks);
        assert(fits(options, after.apps, tasks[0]));
    } else {
        assert(fits(options, before.apps, task));
        let more = after.pending.take(after.pending.len() - (before.pending.len() - 1));
        if let Task::WalkApp(app) = task {
            if let Reply::Walked(walked) = reply {
                sources_fit(options, before.apps, app, walked@);
            }
        }
        assert(after.pending =~= more + before.pending.skip(1));
        goes_on(options, before, after, more);
        assert(before.pending.len() == 1 ==> before.pending.last() == task);
        if exists|k: int| root_first(before.pending, k) {
            if leads_to_root(task) {
                if task is ReadSourceManifest {
                    assert(root_first(after.pending, 0));
                }
            } else {
                let k = choose|k: int| root_first(before.pending, k);
                assert(k > 0 && !comes_later(before.pending[0]));
            }
        }
    }
}

proof fn course_sound(options: Options, course: Seq<RunView>, i: int)
    requires
        is_course(options, course),
        0 <= i < course.len(),
    ensures
        sound(options, course[i]),
    decreases i,
{
    if i == 0 {
        begins_sound(options);
    } else {
        course_sound(options, course, i - 1);
        assert(leads_to(course[i - 1], course[i]));
        let (reply, next) = choose|reply: Reply, next: SyncRun| #[trigger]
            run::answered(course[i - 1], reply, Ok::<SyncRun, SyncError>(next)) && next@
                == course[i];
        stays_sound(options, course[i - 1], reply, next);
    }
}

/// The command changes nothing: it is `rsync`, told to make a dry run.
pub open spec fn is_rehearsal(action: ActionView) -> bool {
    match action {
        ActionView::Run(command) => command.program == "rsync"@ && command.args.contains(
            ArgView::Text("--dry-run"@),
        ),
        _ => false,
    }
}

/// The action only looks.
pub open spec fn only_looks(action: ActionView) -> bool {
    match action {
        ActionView::ListSource
        | ActionView::Exists(_)
        | ActionView::Read(_)
        | ActionView::Walk(_)
        | ActionView::Finish => true,
        _ => false,
    }
}

/// A dry run changes nothing: at every step it only looks, or has `rsync` rehearse.
pub proof fn dry_run_changes_nothing(options: Options, course: Seq<RunView>, i: int)
    requires
        is_course(options, course),
        0 <= i < course.len(),
        options.dry_run,
    ensures
        only_looks(run::asked(course[i])) || is_rehearsal(run::asked(course[i])),
{
    course_sound(options, course, i);
    let now = course[i];
    if now.pending.len() > 0 {
        let task = now.pending[0];
        assert(now.pending != seq![Task::FindApps] ==> fits(options, now.apps, task));
        if let ActionView::Run(command) = run::asked(now) {
            let flag = ArgView::Text("--dry-run"@);
            if task is CopyConfig {
                assert(command.args[1] == flag);
            } else {
                assert(command.args[5] == flag);
            }
        }
    }
}

/// What was asked for stays so: a sync never changes its mind on the mode, the pull request,
/// the base branch, a branch that was named, or applications that were named.
pub proof fn settings_are_kept(options: Options, course: Seq<RunView>, i: int)
    requires
        is_course(options, course),
        0 <= i < course.len(),
    ensures
        course[i].dry_run == options.dry_run,
        course[i].create_pr == options.create_pr,
        course[i].base_branch == options.base_branch@,
        options.branch_name matches Some(name) ==> course[i].branch == name@,
        options.apps@.len() > 0 ==> course[i].apps == options.apps@,
{
    course_sound(options, course, i);
}

/// The place that an action changes, if it changes one by itself.
pub open spec fn changed_place(action: ActionView) -> Option<Place> {
    match action {
        ActionView::RemoveTree(place)
        | ActionView::RemoveFile(place)
        | ActionView::MakeDirs(place)
        | ActionView::Write(place, _) => Some(place),
        _ => None,
    }
}

/// The place is in the target, and if it belongs to an application, to one of these.
pub open spec fn within_reach(apps: Seq<String>, place: Place) -> bool {
    match place {
        Place::TargetApp(app) | Place::TargetAppManifest(app) | Place::TargetAppFile(app, _) =>
            apps.contains(app),
        Place::TargetConfigDir | Place::TargetConfig | Place::TargetManifest | Place::TargetLock =>
            true,
        _ => false,
    }
}

/// A sync changes nothing in the source, and no application in the target but its own.
pub proof fn others_are_left_alone(options: Options, course: Seq<RunView>, i: int)
    requires
        is_course(options, course),
        0 <= i < course.len(),
    ensures
        changed_place(run::asked(course[i])) matches Some(place) ==> within_reach(
            course[i].apps,
            place,
        ),
{
    course_sound(options, course, i);
    let now = course[i];
    if now.pending.len() > 0 {
        assert(now.pending != seq![Task::FindApps] ==> fits(options, now.apps, now.pending[0]));
    }
}

/// Without a wish for a pull request, or in a dry run, no `git` or `gh` is run and no pull
/// request is reported.
pub proof fn no_unwanted_pr(options: Options, course: Seq<RunView>, i: int)
    requires
        is_course(options, course),
        0 <= i < course.len(),
        !options.create_pr || options.dry_run,
    ensures
        course[i].pr_url is None,
        run::asked(course[i]) matches ActionView::Run(command) ==> command.program == "rsync"@
            || command.program == "cargo"@,
{
    course_sound(options, course, i);
    let now = course[i];
    if now.pending.len() > 0 {
        assert(now.pending != seq![Task::FindApps] ==> fits(options, now.apps, now.pending[0]));
    }
}

/// A sync that ends has opened the pull request if it was asked to, outside a dry run.
pub proof fn wanted_pr_is_opened(options: Options, course: Seq<RunView>, i: int)
    requires
        is_course(options, course),
        0 <= i < course.len(),
        run::asked(course[i]) is Finish,
    ensures
        course[i].pr_url is Some <==> options.create_pr && !options.dry_run,
{
    course_sound(options, course, i);
    let now = course[i];
    if now.pending.len() > 0 {
        assert(run::task_action(now, now.pending[0]) is Finish);
    }
}

/// A sync that ends has transformed the target's root manifest, and lists it first.
pub proof fn root_manifest_comes_first(options: Options, course: Seq<RunView>, i: int)
    requires
        is_course(options, course),
        0 <= i < course.len(),
        run::asked(course[i]) is Finish,
    ensures
        course[i].transformed.len() > 0,
        course[i].transformed[0] == Place::TargetManifest,
{
    course_sound(options, course, i);
    let now = course[i];
    if now.pending.len() > 0 {
        assert(run::task_action(now, now.pending[0]) is Finish);
    }
}

} // verus!
