//! In which order a sync takes its steps, and that it comes to an end.
use vstd::prelude::*;

use super::error::SyncError;
use super::request::{Place, Reply, WalkedEntry};
use super::run;
use super::run::{RunView, SyncRun, Task};
use super::run_laws;
use super::Options;

verus! {

/// The part of a sync that a step belongs to: finding the applications, clearing their old
/// directories, copying them, the infrastructure, Cargo's configuration, the root manifest, the
/// applications' manifests, their sources, the lock file, the pull request.
pub open spec fn phase(task: Task) -> nat {
    match task {
        Task::FindApps => 0,
        Task::CheckStale(_) | Task::RemoveStale(_) => 1,
        Task::MakeAppDir(_) | Task::CopyApp(_) => 2,
        Task::CheckInfra | Task::CopyInfra => 3,
        Task::CheckConfig | Task::MakeConfigDir | Task::CopyConfig | Task::ReadConfig => 4,
        Task::ReadSourceManifest | Task::ReadTargetManifest(_) => 5,
        Task::CheckManifest(_) | Task::ReadManifest(_) => 6,
        Task::WalkApp(_) | Task::ReadSource(_, _, _) => 7,
        Task::CheckLock | Task::RemoveLock | Task::Relock => 8,
        Task::ReadVersion
        | Task::Checkout
        | Task::Stage
        | Task::Commit
        | Task::Push
        | Task::OpenPr => 9,
        Task::Write(place, _) => match place {
            Place::TargetConfig => 4,
            Place::TargetManifest => 5,
            Place::TargetAppManifest(_) => 6,
            _ => 7,
        },
    }
}

/// Every step belongs to the same part as the one before it, or to a later one.
pub open spec fn is_ordered(tasks: Seq<Task>) -> bool {
    forall|i: int, j: int|
        0 <= i <= j < tasks.len() ==> phase(#[trigger] tasks[i]) <= phase(#[trigger] tasks[j])
}

pub proof fn copies_phase(apps: Seq<String>, dry_run: bool)
    ensures
        forall|i: int|
            0 <= i < run::copies(apps, dry_run).len() ==> phase(
                #[trigger] run::copies(apps, dry_run)[i],
            ) == 2,
    decreases apps.len(),
{
    if apps.len() > 0 {
        let inner = run::copies(apps.drop_last(), dry_run);
        copies_phase(apps.drop_last(), dry_run);
        let tasks = run::copies(apps, dry_run);
        assert forall|i: int| 0 <= i < tasks.len() implies phase(#[trigger] tasks[i]) == 2 by {
            if i < inner.len() {
                assert(tasks[i] == inner[i]);
            }
        }
    }
}

pub proof fn sources_phase(app: String, walked: Seq<WalkedEntry>)
    ensures
        forall|i: int|
            0 <= i < run::sources(app, walked).len() ==> phase(
                #[trigger] run::sources(app, walked)[i],
            ) == 7,
    decreases walked.len(),
{
    if walked.len() > 0 {
        let inner = run::sources(app, walked.drop_last());
        sources_phase(app, walked.drop_last());
        let tasks = run::sources(app, walked);
        assert forall|i: int| 0 <= i < tasks.len() implies phase(#[trigger] tasks[i]) == 7 by {
            if i < inner.len() {
                assert(tasks[i] == inner[i]);
            }
        }
    }
}

proof fn ordered_concat(a: Seq<Task>, b: Seq<Task>)
    requires
        is_ordered(a),
        is_ordered(b),
        forall|i: int, j: int|
            0 <= i < a.len() && 0 <= j < b.len() ==> phase(#[trigger] a[i]) <= phase(
                #[trigger] b[j],
            ),
    ensures
        is_ordered(a + b),
{
    let all = a + b;
    assert forall|i: int, j: int| 0 <= i <= j < all.len() implies phase(#[trigger] all[i])
        <= phase(#[trigger] all[j]) by {
        if i < a.len() {
            assert(all[i] == a[i]);
        } else {
            assert(all[i] == b[i - a.len()]);
        }
        if j < a.len() {
            assert(all[j] == a[j]);
        } else {
            assert(all[j] == b[j - a.len()]);
        }
    }
}

proof fn plan_is_ordered(apps: Seq<String>, dry_run: bool, create_pr: bool, unnamed: bool)
    ensures
        is_ordered(run::plan(apps, dry_run, create_pr, unnamed)),
{
    let stale = apps.map_values(|app: String| Task::CheckStale(app));
    let copying = run::copies(apps, dry_run);
    copies_phase(apps, dry_run);
    ordered_concat(stale, copying);
    let singles = seq![Task::CheckInfra, Task::CheckConfig, Task::ReadSourceManifest];
    let one = stale + copying;
    assert forall|i: int| 0 <= i < one.len() implies phase(#[trigger] one[i]) <= 2 by {
        if i >= stale.len() {
            assert(one[i] == copying[i - stale.len()]);
        }
    }
    ordered_concat(one, singles);
    let two = one + singles;
    assert forall|i: int| 0 <= i < two.len() implies phase(#[trigger] two[i]) <= 5 by {
        if i < one.len() {
            assert(two[i] == one[i]);
        }
    }
    let manifests = apps.map_values(|app: String| Task::CheckManifest(app));
    ordered_concat(two, manifests);
    let three = two + manifests;
    assert forall|i: int| 0 <= i < three.len() implies phase(#[trigger] three[i]) <= 6 by {
        if i < two.len() {
            assert(three[i] == two[i]);
        }
    }
    let walks = apps.map_values(|app: String| Task::WalkApp(app));
    ordered_concat(three, walks);
    let four = three + walks;
    assert forall|i: int| 0 <= i < four.len() implies phase(#[trigger] four[i]) <= 7 by {
        if i < three.len() {
            assert(four[i] == three[i]);
        }
    }
    let end = seq![Task::CheckLock] + (if dry_run {
        Seq::empty()
    } else {
        seq![Task::Relock]
    }) + (if create_pr && !dry_run {
        run::pr_tasks(unnamed)
    } else {
        Seq::empty()
    });
    ordered_concat(four, end);
    assert(run::plan(apps, dry_run, create_pr, unnamed) =~= four + end);
}

/// The steps that a reply adds, in front of those that were left.
pub open spec fn added(before: RunView, after: RunView) -> Seq<Task> {
    after.pending.take(after.pending.len() - (before.pending.len() - 1))
}

pub proof fn reply_adds(before: RunView, reply: Reply, next: SyncRun)
    requires
        run::answered(before, reply, Ok::<SyncRun, SyncError>(next)),
    ensures
        before.pending.len() > 0,
        next@.pending == added(before, next@) + before.pending.skip(1),
        before.pending[0] is FindApps ==> added(before, next@) == run::plan(
            next@.apps,
            before.dry_run,
            before.create_pr,
            before.unnamed,
        ),
        before.pending[0] matches Task::WalkApp(app) ==> exists|walked: Seq<WalkedEntry>|
            added(before, next@) == #[trigger] run::sources(app, walked),
        !(before.pending[0] is FindApps) ==> forall|i: int|
            0 <= i < added(before, next@).len() ==> phase(#[trigger] added(before, next@)[i])
                == phase(before.pending[0]),
{
    let after = next@;
    let rest = before.pending.skip(1);
    let more = added(before, after);
    if let Task::WalkApp(app) = before.pending[0] {
        if let Reply::Walked(walked) = reply {
            sources_phase(app, walked@);
            assert(more =~= run::sources(app, walked@));
        }
    }
    if before.pending[0] is FindApps {
        assert(more =~= run::plan(
            after.apps,
            before.dry_run,
            before.create_pr,
            before.unnamed,
        ));
    }
    assert(after.pending =~= more + rest);
}

proof fn stays_ordered(before: RunView, reply: Reply, next: SyncRun)
    requires
        is_ordered(before.pending),
        before.pending == seq![Task::FindApps] || !(before.pending[0] is FindApps),
        run::answered(before, reply, Ok::<SyncRun, SyncError>(next)),
    ensures
        is_ordered(next@.pending),
        next@.pending.len() > 0 ==> phase(before.pending[0]) <= phase(next@.pending[0]),
{
    reply_adds(before, reply, next);
    let more = added(before, next@);
    let rest = before.pending.skip(1);
    assert forall|j: int| 0 <= j < rest.len() implies phase(before.pending[0]) <= phase(
        #[trigger] rest[j],
    ) by {
        assert(rest[j] == before.pending[j + 1]);
    }
    assert forall|i: int, j: int| 0 <= i <= j < rest.len() implies phase(#[trigger] rest[i])
        <= phase(#[trigger] rest[j]) by {
        assert(rest[i] == before.pending[i + 1]);
        assert(rest[j] == before.pending[j + 1]);
    }
    if before.pending[0] is FindApps {
        plan_is_ordered(next@.apps, before.dry_run, before.create_pr, before.unnamed);
        assert(rest.len() == 0);
    }
    ordered_concat(more, rest);
}

/// The steps of a sync come in the order of its parts: no old directory is removed once an
/// application was copied, nothing is copied once a manifest was transformed, and nothing is
/// transformed once the lock file is made anew or the pull request is begun.
pub proof fn parts_come_in_order(options: Options, course: Seq<RunView>, i: int, j: int)
    requires
        run_laws::is_course(options, course),
        0 <= i <= j < course.len(),
        course[i].pending.len() > 0,
        course[j].pending.len() > 0,
    ensures
        phase(course[i].pending[0]) <= phase(course[j].pending[0]),
    decreases j,
{
    course_ordered(options, course, j);
    if i < j {
        step_taken(options, course, j - 1);
        let (reply, next) = choose|reply: Reply, next: SyncRun| #[trigger]
            run::answered(course[j - 1], reply, Ok::<SyncRun, SyncError>(next)) && next@
                == course[j];
        course_ordered(options, course, j - 1);
        stays_ordered(course[j - 1], reply, next);
        parts_come_in_order(options, course, i, j - 1);
    }
}

pub proof fn step_taken(options: Options, course: Seq<RunView>, i: int)
    requires
        run_laws::is_course(options, course),
        0 <= i < course.len() - 1,
    ensures
        exists|reply: Reply, next: SyncRun| #[trigger]
            run::answered(course[i], reply, Ok::<SyncRun, SyncError>(next)) && next@ == course[i
                + 1],
        course[i].pending.len() > 0,
{
    assert(run_laws::leads_to(course[i], course[i + 1]));
}

pub proof fn course_ordered(options: Options, course: Seq<RunView>, i: int)
    requires
        run_laws::is_course(options, course),
        0 <= i < course.len(),
    ensures
        is_ordered(course[i].pending),
        course[i].pending == seq![Task::FindApps] || course[i].pending.len() == 0 || !(
        course[i].pending[0] is FindApps),
    decreases i,
{
    if i == 0 {
        plan_is_ordered(
            options.apps@,
            options.dry_run,
            options.create_pr,
            options.branch_name is None,
        );
        if options.apps@.len() > 0 {
            assert(course[0].pending[0] == Task::CheckStale(options.apps@[0]));
        }
    } else {
        course_ordered(options, course, i - 1);
        step_taken(options, course, i - 1);
        let (reply, next) = choose|reply: Reply, next: SyncRun| #[trigger]
            run::answered(course[i - 1], reply, Ok::<SyncRun, SyncError>(next)) && next@
                == course[i];
        stays_ordered(course[i - 1], reply, next);
        reply_adds(course[i - 1], reply, next);
        let now = course[i].pending;
        let more = added(course[i - 1], course[i]);
        let rest = course[i - 1].pending.skip(1);
        if now.len() > 0 && now[0] is FindApps {
            if more.len() > 0 {
                assert(now[0] == more[0]);
                if course[i - 1].pending[0] is FindApps {
                    plan_begins(
                        course[i].apps,
                        course[i].dry_run,
                        course[i].create_pr,
                        course[i].unnamed,
                    );
                }
            } else {
                assert(now[0] == rest[0]);
                assert(rest[0] == course[i - 1].pending[1]);
                assert(phase(course[i - 1].pending[0]) <= phase(course[i - 1].pending[1]));
            }
        }
    }
}

proof fn plan_begins(apps: Seq<String>, dry_run: bool, create_pr: bool, unnamed: bool)
    ensures
        ({
            let tasks = run::plan(apps, dry_run, create_pr, unnamed);
            tasks.len() > 0 && !(tasks[0] is FindApps)
        }),
{
    let tasks = run::plan(apps, dry_run, create_pr, unnamed);
    if apps.len() > 0 {
        assert(tasks[0] == Task::CheckStale(apps[0]));
    } else {
        assert(run::copies(apps, dry_run).len() == 0);
        assert(tasks[0] == Task::CheckInfra);
    }
}

/// What `f` gives for the steps, all together.
pub open spec fn total(tasks: Seq<Task>, f: spec_fn(Task) -> nat) -> nat
    decreases tasks.len(),
{
    if tasks.len() == 0 {
        0
    } else {
        f(tasks[0]) + total(tasks.skip(1), f)
    }
}

/// One for a search for applications.
pub open spec fn searches() -> spec_fn(Task) -> nat {
    |task: Task|
        if task is FindApps {
            1
        } else {
            0
        }
}

/// One for a walk through an application.
pub open spec fn walks() -> spec_fn(Task) -> nat {
    |task: Task|
        if task is WalkApp {
            1
        } else {
            0
        }
}

/// How many steps a step can come to, itself counted, searches and walks aside.
pub open spec fn reach() -> spec_fn(Task) -> nat {
    |task: Task|
        match task {
            Task::CheckConfig => 5,
            Task::ReadSourceManifest | Task::CheckManifest(_) => 3,
            Task::CheckStale(_)
            | Task::CheckInfra
            | Task::ReadConfig
            | Task::ReadTargetManifest(_)
            | Task::ReadManifest(_)
            | Task::ReadSource(_, _, _)
            | Task::CheckLock => 2,
            _ => 1,
        }
}

/// There is less left to do: fewer searches, or as many and fewer walks, or as many of both and
/// fewer other steps to come.
pub open spec fn is_nearer(before: Seq<Task>, after: Seq<Task>) -> bool {
    let s = (total(before, searches()), total(after, searches()));
    let w = (total(before, walks()), total(after, walks()));
    let r = (total(before, reach()), total(after, reach()));
    s.1 < s.0 || s.1 == s.0 && (w.1 < w.0 || w.1 == w.0 && r.1 < r.0)
}

pub proof fn total_add(a: Seq<Task>, b: Seq<Task>, f: spec_fn(Task) -> nat)
    ensures
        total(a + b, f) == total(a, f) + total(b, f),
    decreases a.len(),
{
    if a.len() == 0 {
        assert(a + b =~= b);
    } else {
        assert((a + b).skip(1) =~= a.skip(1) + b);
        total_add(a.skip(1), b, f);
    }
}

pub proof fn total_none(tasks: Seq<Task>, f: spec_fn(Task) -> nat)
    requires
        forall|i: int| 0 <= i < tasks.len() ==> f(#[trigger] tasks[i]) == 0,
    ensures
        total(tasks, f) == 0,
    decreases tasks.len(),
{
    if tasks.len() > 0 {
        let rest = tasks.skip(1);
        assert forall|i: int| 0 <= i < rest.len() implies f(#[trigger] rest[i]) == 0 by {
            assert(rest[i] == tasks[i + 1]);
        }
        total_none(rest, f);
    }
}

pub proof fn sources_are_read(app: String, walked: Seq<WalkedEntry>)
    ensures
        forall|i: int|
            0 <= i < run::sources(app, walked).len() ==> (#[trigger] run::sources(
                app,
                walked,
            )[i]) is ReadSource,
    decreases walked.len(),
{
    if walked.len() > 0 {
        let inner = run::sources(app, walked.drop_last());
        sources_are_read(app, walked.drop_last());
        let tasks = run::sources(app, walked);
        assert forall|i: int| 0 <= i < tasks.len() implies (#[trigger] tasks[i]) is ReadSource by {
            if i < inner.len() {
                assert(tasks[i] == inner[i]);
            }
        }
    }
}

/// A sync comes to an end: every reply that it takes leaves it less to do.
pub proof fn every_reply_brings_the_end_nearer(before: RunView, reply: Reply, next: SyncRun)
    requires
        run::answered(before, reply, Ok::<SyncRun, SyncError>(next)),
    ensures
        is_nearer(before.pending, next@.pending),
{
    reply_adds(before, reply, next);
    let more = added(before, next@);
    let task = before.pending[0];
    let rest = before.pending.skip(1);
    total_add(more, rest, searches());
    total_add(more, rest, walks());
    total_add(more, rest, reach());
    if task is FindApps {
        plan_is_ordered(next@.apps, before.dry_run, before.create_pr, before.unnamed);
        plan_begins(next@.apps, before.dry_run, before.create_pr, before.unnamed);
        assert forall|i: int| 0 <= i < more.len() implies searches()(#[trigger] more[i]) == 0 by {
            assert(phase(more[0]) <= phase(more[i]));
            assert(!(more[0] is FindApps));
        }
        total_none(more, searches());
    } else if let Task::WalkApp(app) = task {
        let walked = choose|walked: Seq<WalkedEntry>| more == #[trigger] run::sources(app, walked);
        sources_are_read(app, walked);
        assert forall|i: int| 0 <= i < more.len() implies searches()(#[trigger] more[i]) == 0
            && walks()(more[i]) == 0 by {
            assert(more[i] is ReadSource);
        }
        total_none(more, searches());
        total_none(more, walks());
    } else {
        few_follow(before, reply, next);
    }
}

/// What follows a step that is neither a search nor a walk.
proof fn few_follow(before: RunView, reply: Reply, next: SyncRun)
    requires
        run::answered(before, reply, Ok::<SyncRun, SyncError>(next)),
        !(before.pending[0] is FindApps),
        !(before.pending[0] is WalkApp),
    ensures
        total(added(before, next@), searches()) == 0,
        total(added(before, next@), walks()) == 0,
        total(added(before, next@), reach()) < reach()(before.pending[0]),
{
    let more = added(before, next@);
    let rest = before.pending.skip(1);
    assert(next@.pending.len() >= rest.len());
    assert(more.len() <= 3);
    reveal_with_fuel(total, 4);
    if more.len() > 0 {
        assert(more[0] == next@.pending[0]);
        assert(more.skip(1).len() == more.len() - 1);
    }
    if more.len() > 1 {
        assert(more.skip(1)[0] == next@.pending[1]);
        assert(more.skip(1).skip(1)[0] == next@.pending[2]);
    }
}

} // verus!
