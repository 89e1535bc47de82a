//! That a sync commits what it copied, and nothing that it did not copy.
use vstd::prelude::*;

use super::error::SyncError;
use super::request;
use super::request::{ActionView, Reply, WalkedEntry};
use super::run;
use super::run::{RunView, SyncRun, Task};
use super::run_laws;
use super::run_order;
use super::run_steps;
use super::Options;
use crate::text;

verus! {

/// A part of the source that is copied only if it is there.
pub enum Part {
    Infra,
    Config,
}

/// The step that looks for the part.
pub open spec fn looking_for(part: Part) -> Task {
    match part {
        Part::Infra => Task::CheckInfra,
        Part::Config => Task::CheckConfig,
    }
}

/// The step that copies the part.
pub open spec fn copying(part: Part) -> Task {
    match part {
        Part::Infra => Task::CopyInfra,
        Part::Config => Task::CopyConfig,
    }
}

/// The sync holds the part for copied.
pub open spec fn holds_copied(run: RunView, part: Part) -> bool {
    match part {
        Part::Infra => run.infra_synced,
        Part::Config => run.config_synced,
    }
}

/// The step was taken before the sync stood at `i`.
pub open spec fn was_taken(course: Seq<RunView>, i: int, task: Task) -> bool {
    exists|j: int|
        0 <= j < i && (#[trigger] course[j]).pending.len() > 0 && course[j].pending[0] == task
}

/// One for that step.
spec fn one_for(task: Task) -> spec_fn(Task) -> nat {
    |other: Task|
        if other == task {
            1
        } else {
            0
        }
}

/// Where the copying of a part stands.
spec fn part_stands(course: Seq<RunView>, i: int, part: Part) -> bool {
    let now = course[i];
    let to_look = run_order::total(now.pending, one_for(looking_for(part)));
    let to_copy = run_order::total(now.pending, one_for(copying(part)));
    let taken = was_taken(course, i, copying(part));
    ||| {
        &&& now.pending == seq![Task::FindApps] || to_look == 1 && to_copy == 0
        &&& !holds_copied(now, part)
        &&& !taken
    }
    ||| {
        &&& to_look == 0
        &&& to_copy == 1
        &&& now.pending.len() > 0
        &&& now.pending[0] == copying(part) || now.pending[0] is MakeConfigDir
            && now.pending.len() > 1 && now.pending[1] == copying(part)
        &&& holds_copied(now, part)
        &&& !taken
    }
    ||| {
        &&& now.pending != seq![Task::FindApps]
        &&& to_look == 0
        &&& to_copy == 0
        &&& holds_copied(now, part) == taken
    }
}

proof fn total_found(tasks: Seq<Task>, task: Task)
    requires
        run_order::total(tasks, one_for(task)) > 0,
    ensures
        tasks.contains(task),
    decreases tasks.len(),
{
    if tasks.len() > 0 {
        if tasks[0] != task {
            let rest = tasks.skip(1);
            total_found(rest, task);
            let i = choose|i: int| 0 <= i < rest.len() && rest[i] == task;
            assert(tasks[i + 1] == task);
        } else {
            assert(tasks[0] == task);
        }
    }
}

proof fn plan_parts(
    apps: Seq<String>,
    dry_run: bool,
    create_pr: bool,
    unnamed: bool,
    part: Part,
)
    ensures
        ({
            let tasks = run::plan(apps, dry_run, create_pr, unnamed);
            &&& run_order::total(tasks, one_for(looking_for(part))) == 1
            &&& run_order::total(tasks, one_for(copying(part))) == 0
        }),
{
    let look = one_for(looking_for(part));
    let copy = one_for(copying(part));
    let stale = apps.map_values(|app: String| Task::CheckStale(app));
    let copied = run::copies(apps, dry_run);
    run_order::copies_phase(apps, dry_run);
    run_order::total_none(stale, look);
    run_order::total_none(stale, copy);
    assert forall|i: int| 0 <= i < copied.len() implies look(#[trigger] copied[i]) == 0 && copy(
        copied[i],
    ) == 0 by {
        assert(run_order::phase(copied[i]) == 2);
    }
    run_order::total_none(copied, look);
    run_order::total_none(copied, copy);
    let singles = seq![Task::CheckInfra, Task::CheckConfig, Task::ReadSourceManifest];
    assert(run_order::total(singles, look) == 1 && run_order::total(singles, copy) == 0) by {
        reveal_with_fuel(run_order::total, 4);
        assert(singles.skip(1)[0] == Task::CheckConfig);
        assert(singles.skip(1).skip(1)[0] == Task::ReadSourceManifest);
    }
    let manifests = apps.map_values(|app: String| Task::CheckManifest(app));
    let walks = apps.map_values(|app: String| Task::WalkApp(app));
    run_order::total_none(manifests, look);
    run_order::total_none(manifests, copy);
    run_order::total_none(walks, look);
    run_order::total_none(walks, copy);
    let end = seq![Task::CheckLock] + (if dry_run {
        Seq::empty()
    } else {
        seq![Task::Relock]
    }) + (if create_pr && !dry_run {
        run::pr_tasks(unnamed)
    } else {
        Seq::empty()
    });
    run_order::total_none(end, look);
    run_order::total_none(end, copy);
    let one = stale + copied;
    let two = one + singles;
    let three = two + manifests;
    let four = three + walks;
    run_order::total_add(stale, copied, look);
    run_order::total_add(one, singles, look);
    run_order::total_add(two, manifests, look);
    run_order::total_add(three, walks, look);
    run_order::total_add(four, end, look);
    run_order::total_add(stale, copied, copy);
    run_order::total_add(one, singles, copy);
    run_order::total_add(two, manifests, copy);
    run_order::total_add(three, walks, copy);
    run_order::total_add(four, end, copy);
    assert(run::plan(apps, dry_run, create_pr, unnamed) =~= four + end);
}

/// What a reply adds, seen from a part.
proof fn added_parts(before: RunView, reply: Reply, next: SyncRun, part: Part)
    requires
        run::answered(before, reply, Ok::<SyncRun, SyncError>(next)),
        !(before.pending[0] is FindApps),
    ensures
        ({
            let more = run_order::added(before, next@);
            let task = before.pending[0];
            let to_look = run_order::total(more, one_for(looking_for(part)));
            let to_copy = run_order::total(more, one_for(copying(part)));
            &&& to_look == 0
            &&& if task == looking_for(part) {
                if holds_copied(next@, part) {
                    to_copy == 1 && (more[0] == copying(part) || more[0] is MakeConfigDir
                        && more.len() > 1 && more[1] == copying(part))
                } else {
                    to_copy == 0
                }
            } else {
                to_copy == 0 && holds_copied(next@, part) == holds_copied(before, part)
            }
            &&& task is MakeConfigDir ==> more.len() == 0
        }),
{
    run_order::reply_adds(before, reply, next);
    let more = run_order::added(before, next@);
    let task = before.pending[0];
    let rest = before.pending.skip(1);
    let look = one_for(looking_for(part));
    let copy = one_for(copying(part));
    if let Task::WalkApp(app) = task {
        let walked = choose|walked: Seq<WalkedEntry>| more == #[trigger] run::sources(app, walked);
        run_order::sources_are_read(app, walked);
        assert forall|i: int| 0 <= i < more.len() implies look(#[trigger] more[i]) == 0 && copy(
            more[i],
        ) == 0 by {
            assert(more[i] is ReadSource);
        }
        run_order::total_none(more, look);
        run_order::total_none(more, copy);
    } else {
        assert(more.len() <= 3);
        reveal_with_fuel(run_order::total, 4);
        if more.len() > 0 {
            assert(more[0] == next@.pending[0]);
            assert(more.skip(1).len() == more.len() - 1);
        }
        if more.len() > 1 {
            assert(more[1] == next@.pending[1]);
            assert(more.skip(1)[0] == next@.pending[1]);
            assert(more.skip(1).skip(1)[0] == next@.pending[2]);
        }
    }
}

proof fn taken_next(course: Seq<RunView>, i: int, task: Task)
    requires
        0 <= i < course.len() - 1,
        course[i].pending.len() > 0,
    ensures
        was_taken(course, i + 1, task) <==> was_taken(course, i, task) || course[i].pending[0]
            == task,
{
    if was_taken(course, i + 1, task) && !was_taken(course, i, task) {
        let j = choose|j: int|
            0 <= j < i + 1 && (#[trigger] course[j]).pending.len() > 0 && course[j].pending[0]
                == task;
        assert(j == i);
    }
}

proof fn part_stands_on(options: Options, course: Seq<RunView>, i: int, part: Part)
    requires
        run_laws::is_course(options, course),
        0 <= i < course.len(),
    ensures
        part_stands(course, i, part),
    decreases i,
{
    if i == 0 {
        plan_parts(
            options.apps@,
            options.dry_run,
            options.create_pr,
            options.branch_name is None,
            part,
        );
    } else {
        part_stands_on(options, course, i - 1, part);
        run_order::course_ordered(options, course, i - 1);
        run_order::step_taken(options, course, i - 1);
        let before = course[i - 1];
        let (reply, next) = choose|reply: Reply, next: SyncRun| #[trigger]
            run::answered(before, reply, Ok::<SyncRun, SyncError>(next)) && next@ == course[i];
        run_order::reply_adds(before, reply, next);
        taken_next(course, i - 1, copying(part));
        let more = run_order::added(before, next@);
        let rest = before.pending.skip(1);
        let look = one_for(looking_for(part));
        let copy = one_for(copying(part));
        run_order::total_add(more, rest, look);
        run_order::total_add(more, rest, copy);
        if before.pending[0] is FindApps {
            plan_parts(
                next@.apps,
                before.dry_run,
                before.create_pr,
                before.unnamed,
                part,
            );
            assert(rest.len() == 0);
        } else {
            added_parts(before, reply, next, part);
            if course[i].pending == seq![Task::FindApps] {
                run_order::parts_come_in_order(options, course, i - 1, i);
                assert(course[i].pending[0] is FindApps);
            }
            if rest.len() > 0 {
                assert(rest[0] == before.pending[1]);
            }
            if more.len() > 0 {
                assert(course[i].pending[0] == more[0]);
            } else if rest.len() > 0 {
                assert(course[i].pending[0] == rest[0]);
            }
            if more.len() > 1 {
                assert(course[i].pending[1] == more[1]);
            }
        }
    }
}

proof fn copies_hold(apps: Seq<String>, dry_run: bool, app: String)
    requires
        apps.contains(app),
    ensures
        run::copies(apps, dry_run).contains(Task::CopyApp(app)),
    decreases apps.len(),
{
    let tasks = run::copies(apps, dry_run);
    if apps.last() == app {
        assert(tasks[tasks.len() - 1] == Task::CopyApp(app));
    } else {
        let i = choose|i: int| 0 <= i < apps.len() && apps[i] == app;
        let inner = apps.drop_last();
        assert(inner[i] == app);
        copies_hold(inner, dry_run, app);
        let earlier = run::copies(inner, dry_run);
        let k = choose|k: int| 0 <= k < earlier.len() && earlier[k] == Task::CopyApp(app);
        assert(tasks[k] == earlier[k]);
    }
}

proof fn plan_holds(
    apps: Seq<String>,
    dry_run: bool,
    create_pr: bool,
    unnamed: bool,
    app: String,
)
    requires
        apps.contains(app),
    ensures
        run::plan(apps, dry_run, create_pr, unnamed).contains(Task::CopyApp(app)),
{
    copies_hold(apps, dry_run, app);
    let copied = run::copies(apps, dry_run);
    let k = choose|k: int| 0 <= k < copied.len() && copied[k] == Task::CopyApp(app);
    let tasks = run::plan(apps, dry_run, create_pr, unnamed);
    assert(tasks[apps.len() + k] == copied[k]);
}

proof fn app_stands(options: Options, course: Seq<RunView>, i: int, app: String)
    requires
        run_laws::is_course(options, course),
        0 <= i < course.len(),
        course[i].apps.contains(app),
    ensures
        course[i].pending == seq![Task::FindApps] || course[i].pending.contains(
            Task::CopyApp(app),
        ) || was_taken(course, i, Task::CopyApp(app)),
    decreases i,
{
    if i == 0 {
        if options.apps@.len() > 0 {
            plan_holds(
                options.apps@,
                options.dry_run,
                options.create_pr,
                options.branch_name is None,
                app,
            );
        }
    } else {
        run_order::course_ordered(options, course, i - 1);
        run_order::step_taken(options, course, i - 1);
        let before = course[i - 1];
        let (reply, next) = choose|reply: Reply, next: SyncRun| #[trigger]
            run::answered(before, reply, Ok::<SyncRun, SyncError>(next)) && next@ == course[i];
        run_order::reply_adds(before, reply, next);
        taken_next(course, i - 1, Task::CopyApp(app));
        let more = run_order::added(before, next@);
        let rest = before.pending.skip(1);
        if before.pending[0] is FindApps {
            plan_holds(next@.apps, before.dry_run, before.create_pr, before.unnamed, app);
            let k = choose|k: int| 0 <= k < more.len() && more[k] == Task::CopyApp(app);
            assert(course[i].pending[k] == more[k]);
        } else {
            app_stands(options, course, i - 1, app);
            if before.pending.contains(Task::CopyApp(app)) && before.pending[0] != Task::CopyApp(
                app,
            ) {
                let k = choose|k: int|
                    0 <= k < before.pending.len() && before.pending[k] == Task::CopyApp(app);
                assert(course[i].pending[more.len() + k - 1] == before.pending[k]);
            }
        }
    }
}

/// What a sync stages is what it copied: each of its applications was copied before, the
/// infrastructure and Cargo's configuration are among the paths exactly if they were copied,
/// and the manifest and the lock file always are.
pub proof fn only_what_was_copied_is_staged(options: Options, course: Seq<RunView>, i: int)
    requires
        run_laws::is_course(options, course),
        0 <= i < course.len(),
        course[i].pending.len() > 0,
        course[i].pending[0] is Stage,
    ensures
        run::asked(course[i]) == ActionView::Run(
            request::stage(
                request::staged_paths(
                    text::views(course[i].apps),
                    was_taken(course, i, Task::CopyInfra),
                    was_taken(course, i, Task::CopyConfig),
                ),
            ),
        ),
        forall|app: String|
            course[i].apps.contains(app) ==> #[trigger] was_taken(course, i, Task::CopyApp(app)),
{
    let now = course[i].pending;
    run_order::course_ordered(options, course, i);
    part_stands_on(options, course, i, Part::Infra);
    part_stands_on(options, course, i, Part::Config);
    if run_order::total(now, one_for(Task::CheckInfra)) > 0 {
        total_found(now, Task::CheckInfra);
        let k = choose|k: int| 0 <= k < now.len() && now[k] == Task::CheckInfra;
        assert(run_order::phase(now[0]) <= run_order::phase(now[k]));
    }
    if run_order::total(now, one_for(Task::CheckConfig)) > 0 {
        total_found(now, Task::CheckConfig);
        let k = choose|k: int| 0 <= k < now.len() && now[k] == Task::CheckConfig;
        assert(run_order::phase(now[0]) <= run_order::phase(now[k]));
    }
    assert forall|app: String| course[i].apps.contains(app) implies #[trigger] was_taken(
        course,
        i,
        Task::CopyApp(app),
    ) by {
        app_stands(options, course, i, app);
        if now.contains(Task::CopyApp(app)) {
            let k = choose|k: int| 0 <= k < now.len() && now[k] == Task::CopyApp(app);
            assert(run_order::phase(now[0]) <= run_order::phase(now[k]));
        }
    }
}

proof fn naming_is_kept(options: Options, course: Seq<RunView>, i: int)
    requires
        run_laws::is_course(options, course),
        0 <= i < course.len(),
    ensures
        course[i].unnamed == (options.branch_name is None),
    decreases i,
{
    if i > 0 {
        naming_is_kept(options, course, i - 1);
        run_order::step_taken(options, course, i - 1);
        let (reply, next) = choose|reply: Reply, next: SyncRun| #[trigger]
            run::answered(course[i - 1], reply, Ok::<SyncRun, SyncError>(next)) && next@
                == course[i];
        run_steps::settings_never_change(course[i - 1], reply, next);
    }
}

proof fn planned_is_left_or_taken(options: Options, course: Seq<RunView>, i: int, task: Task)
    requires
        run_laws::is_course(options, course),
        0 <= i < course.len(),
        course[i].pending != seq![Task::FindApps],
        run::plan(
            course[i].apps,
            options.dry_run,
            options.create_pr,
            options.branch_name is None,
        ).contains(task),
    ensures
        course[i].pending.contains(task) || was_taken(course, i, task),
    decreases i,
{
    if i > 0 {
        run_order::course_ordered(options, course, i - 1);
        run_order::step_taken(options, course, i - 1);
        let before = course[i - 1];
        let (reply, next) = choose|reply: Reply, next: SyncRun| #[trigger]
            run::answered(before, reply, Ok::<SyncRun, SyncError>(next)) && next@ == course[i];
        run_order::reply_adds(before, reply, next);
        run_laws::settings_are_kept(options, course, i - 1);
        naming_is_kept(options, course, i - 1);
        run_steps::settings_never_change(before, reply, next);
        taken_next(course, i - 1, task);
        let more = run_order::added(before, next@);
        if before.pending[0] is FindApps {
            let k = choose|k: int| 0 <= k < more.len() && more[k] == task;
            assert(course[i].pending[k] == more[k]);
        } else {
            assert(before.pending != seq![Task::FindApps]);
            planned_is_left_or_taken(options, course, i - 1, task);
            if before.pending.contains(task) && before.pending[0] != task {
                let k = choose|k: int| 0 <= k < before.pending.len() && before.pending[k] == task;
                assert(course[i].pending[more.len() + k - 1] == before.pending[k]);
            }
        }
    }
}

/// A sync that is over has dealt with every one of its applications: each was looked for in the
/// target, copied into its directory, which was made outside a dry run, and had its manifest
/// looked for and its sources walked.
pub proof fn finished_sync_dealt_with_every_app(
    options: Options,
    course: Seq<RunView>,
    k: int,
    a: int,
)
    requires
        run_laws::is_course(options, course),
        0 <= k < course.len(),
        course[k].pending.len() == 0,
        0 <= a < course[k].apps.len(),
    ensures
        was_taken(course, k, Task::CheckStale(course[k].apps[a])),
        !options.dry_run ==> was_taken(course, k, Task::MakeAppDir(course[k].apps[a])),
        was_taken(course, k, Task::CopyApp(course[k].apps[a])),
        was_taken(course, k, Task::CheckManifest(course[k].apps[a])),
        was_taken(course, k, Task::WalkApp(course[k].apps[a])),
{
    let apps = course[k].apps;
    let unnamed = options.branch_name is None;
    let p = run::plan(apps, options.dry_run, options.create_pr, unnamed);
    let n = apps.len() as int;
    let copied = if options.dry_run {
        2 * n
    } else {
        3 * n
    };
    run_steps::planned_for_every_app(apps, options.dry_run, options.create_pr, unnamed, a);
    assert(p.contains(p[a]));
    planned_is_left_or_taken(options, course, k, p[a]);
    if options.dry_run {
        assert(p.contains(p[n + a]));
        planned_is_left_or_taken(options, course, k, p[n + a]);
    } else {
        assert(p.contains(p[n + 2 * a]));
        planned_is_left_or_taken(options, course, k, p[n + 2 * a]);
        assert(p.contains(p[n + 2 * a + 1]));
        planned_is_left_or_taken(options, course, k, p[n + 2 * a + 1]);
    }
    assert(p.contains(p[copied + 3 + a]));
    planned_is_left_or_taken(options, course, k, p[copied + 3 + a]);
    assert(p.contains(p[copied + 3 + n + a]));
    planned_is_left_or_taken(options, course, k, p[copied + 3 + n + a]);
}

proof fn shared_is_planned(apps: Seq<String>, dry_run: bool, create_pr: bool, unnamed: bool)
    ensures
        ({
            let p = run::plan(apps, dry_run, create_pr, unnamed);
            &&& p.contains(Task::CheckInfra)
            &&& p.contains(Task::CheckConfig)
            &&& p.contains(Task::ReadSourceManifest)
            &&& p.contains(Task::CheckLock)
            &&& !dry_run ==> p.contains(Task::Relock)
        }),
{
    let p = run::plan(apps, dry_run, create_pr, unnamed);
    let n = apps.len() as int;
    let copied = if dry_run {
        2 * n
    } else {
        3 * n
    };
    if n > 0 {
        run_steps::planned_for_every_app(apps, dry_run, create_pr, unnamed, 0);
    } else {
        assert(apps =~= Seq::empty());
        run_steps::planned_without_apps(dry_run, create_pr, unnamed);
        let four = p.take(4);
        assert(four[0] == p[0] && four[1] == p[1] && four[2] == p[2] && four[3] == p[3]);
    }
    assert(p.contains(p[copied]));
    assert(p.contains(p[copied + 1]));
    assert(p.contains(p[copied + 2]));
    assert(p.contains(p[copied + 3 + 2 * n]));
    if !dry_run {
        assert(p.contains(p[copied + 4 + 2 * n]));
    }
}

proof fn pr_is_planned(apps: Seq<String>, unnamed: bool, task: Task)
    requires
        run::pr_tasks(unnamed).contains(task),
    ensures
        run::plan(apps, false, true, unnamed).contains(task),
{
    let p = run::plan(apps, false, true, unnamed);
    let tail = run::pr_tasks(unnamed);
    let j = choose|j: int| 0 <= j < tail.len() && tail[j] == task;
    assert(p[p.len() - tail.len() + j] == tail[j]);
}

proof fn pr_steps(unnamed: bool)
    ensures
        unnamed ==> run::pr_tasks(unnamed).contains(Task::ReadVersion),
        run::pr_tasks(unnamed).contains(Task::Checkout),
        run::pr_tasks(unnamed).contains(Task::Stage),
        run::pr_tasks(unnamed).contains(Task::Commit),
        run::pr_tasks(unnamed).contains(Task::Push),
        run::pr_tasks(unnamed).contains(Task::OpenPr),
{
    let tasks = run::pr_tasks(unnamed);
    let at: int = if unnamed {
        1
    } else {
        0
    };
    assert(unnamed ==> tasks[0] == Task::ReadVersion);
    assert(tasks[at] == Task::Checkout);
    assert(tasks[at + 1] == Task::Stage);
    assert(tasks[at + 2] == Task::Commit);
    assert(tasks[at + 3] == Task::Push);
    assert(tasks[at + 4] == Task::OpenPr);
}

/// A sync that is over has looked for what its applications share, merged the manifests and seen
/// to the lock file; and outside a dry run it has made the lock file anew and taken every step of
/// a pull request that was wished for.
pub proof fn finished_sync_did_the_rest(options: Options, course: Seq<RunView>, k: int)
    requires
        run_laws::is_course(options, course),
        0 <= k < course.len(),
        course[k].pending.len() == 0,
    ensures
        was_taken(course, k, Task::CheckInfra),
        was_taken(course, k, Task::CheckConfig),
        was_taken(course, k, Task::ReadSourceManifest),
        was_taken(course, k, Task::CheckLock),
        !options.dry_run ==> was_taken(course, k, Task::Relock),
        !options.dry_run && options.create_pr ==> {
            &&& options.branch_name is None ==> was_taken(course, k, Task::ReadVersion)
            &&& was_taken(course, k, Task::Checkout)
            &&& was_taken(course, k, Task::Stage)
            &&& was_taken(course, k, Task::Commit)
            &&& was_taken(course, k, Task::Push)
            &&& was_taken(course, k, Task::OpenPr)
        },
{
    let apps = course[k].apps;
    let unnamed = options.branch_name is None;
    shared_is_planned(apps, options.dry_run, options.create_pr, unnamed);
    planned_is_left_or_taken(options, course, k, Task::CheckInfra);
    planned_is_left_or_taken(options, course, k, Task::CheckConfig);
    planned_is_left_or_taken(options, course, k, Task::ReadSourceManifest);
    planned_is_left_or_taken(options, course, k, Task::CheckLock);
    if !options.dry_run {
        planned_is_left_or_taken(options, course, k, Task::Relock);
        if options.create_pr {
            pr_steps(unnamed);
            assert forall|task: Task| run::pr_tasks(unnamed).contains(task) implies was_taken(
                course,
                k,
                task,
            ) by {
                pr_is_planned(apps, unnamed, task);
                planned_is_left_or_taken(options, course, k, task);
            }
        }
    }
}

} // verus!
