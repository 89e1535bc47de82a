//! What a sync plans for each application, what each step asks for, and what each reply leads to.
use vstd::prelude::*;

use super::discover;
use super::error::{SyncError, TomlInput};
use super::manifest;
use super::manifest_laws;
use super::relative_paths;
use super::request;
use super::request::{ActionView, Place, Reply, WalkedEntry};
use super::run;
use super::run::{RunView, SyncRun, Task};
use super::toml;
use super::toml::Toml;
use super::Options;
use crate::text;

verus! {

proof fn copied_one_by_one(apps: Seq<String>, dry_run: bool, i: int)
    requires
        0 <= i < apps.len(),
    ensures
        dry_run ==> run::copies(apps, dry_run).len() == apps.len() && run::copies(apps, dry_run)[i]
            == Task::CopyApp(apps[i]),
        !dry_run ==> run::copies(apps, dry_run).len() == 2 * apps.len() && run::copies(
            apps,
            dry_run,
        )[2 * i] == Task::MakeAppDir(apps[i]) && run::copies(apps, dry_run)[2 * i + 1]
            == Task::CopyApp(apps[i]),
    decreases apps.len(),
{
    let rest = apps.drop_last();
    if rest.len() > 0 {
        if i < rest.len() {
            copied_one_by_one(rest, dry_run, i);
        } else {
            copied_one_by_one(rest, dry_run, 0);
        }
    } else {
        assert(run::copies(rest, dry_run).len() == 0);
    }
}

/// The plan, step by step. Every application is looked for in the target, copied (into a
/// directory that is made, unless in a dry run), and has its manifest and its sources looked at;
/// each in the order of the applications, and each before the next kind of step. The lock file
/// comes last but for the pull request. There is nothing else.
pub proof fn planned_for_every_app(
    apps: Seq<String>,
    dry_run: bool,
    create_pr: bool,
    unnamed: bool,
    i: int,
)
    requires
        0 <= i < apps.len(),
    ensures
        ({
            let p = run::plan(apps, dry_run, create_pr, unnamed);
            let n = apps.len() as int;
            let copied = if dry_run {
                2 * n
            } else {
                3 * n
            };
            let end = copied + 4 + 2 * n;
            &&& p[i] == Task::CheckStale(apps[i])
            &&& dry_run ==> p[n + i] == Task::CopyApp(apps[i])
            &&& !dry_run ==> p[n + 2 * i] == Task::MakeAppDir(apps[i])
            &&& !dry_run ==> p[n + 2 * i + 1] == Task::CopyApp(apps[i])
            &&& p[copied] == Task::CheckInfra
            &&& p[copied + 1] == Task::CheckConfig
            &&& p[copied + 2] == Task::ReadSourceManifest
            &&& p[copied + 3 + i] == Task::CheckManifest(apps[i])
            &&& p[copied + 3 + n + i] == Task::WalkApp(apps[i])
            &&& p[copied + 3 + 2 * n] == Task::CheckLock
            &&& dry_run ==> p.len() == end
            &&& !dry_run ==> p[end] == Task::Relock
            &&& !dry_run && !create_pr ==> p.len() == end + 1
            &&& !dry_run && create_pr && unnamed ==> p.skip(end + 1) == seq![
                Task::ReadVersion,
                Task::Checkout,
                Task::Stage,
                Task::Commit,
                Task::Push,
                Task::OpenPr,
            ]
            &&& !dry_run && create_pr && !unnamed ==> p.skip(end + 1) == seq![
                Task::Checkout,
                Task::Stage,
                Task::Commit,
                Task::Push,
                Task::OpenPr,
            ]
        }),
{
    copied_one_by_one(apps, dry_run, i);
    let p = run::plan(apps, dry_run, create_pr, unnamed);
    let n = apps.len() as int;
    let end: int = if dry_run {
        4 * n + 4
    } else {
        5 * n + 4
    };
    if !dry_run && create_pr {
        assert(p.skip(end + 1) =~= run::pr_tasks(unnamed));
    }
}

/// A sync of no application at all still brings the shared parts.
pub proof fn planned_without_apps(dry_run: bool, create_pr: bool, unnamed: bool)
    ensures
        ({
            let p = run::plan(Seq::empty(), dry_run, create_pr, unnamed);
            &&& p.take(4) == seq![
                Task::CheckInfra,
                Task::CheckConfig,
                Task::ReadSourceManifest,
                Task::CheckLock,
            ]
            &&& dry_run ==> p.len() == 4
            &&& !dry_run ==> p[4] == Task::Relock
            &&& !dry_run && !create_pr ==> p.len() == 5
            &&& !dry_run && create_pr && unnamed ==> p.skip(5) == seq![
                Task::ReadVersion,
                Task::Checkout,
                Task::Stage,
                Task::Commit,
                Task::Push,
                Task::OpenPr,
            ]
            &&& !dry_run && create_pr && !unnamed ==> p.skip(5) == seq![
                Task::Checkout,
                Task::Stage,
                Task::Commit,
                Task::Push,
                Task::OpenPr,
            ]
        }),
{
    let p = run::plan(Seq::empty(), dry_run, create_pr, unnamed);
    assert(run::copies(Seq::empty(), dry_run).len() == 0);
    if !dry_run && create_pr {
        assert(p.skip(5) =~= run::pr_tasks(unnamed));
    }
}

/// A sync begins with its options as they are given: with the plan for the applications that are
/// named, or with the search for them if none is.
pub proof fn options_are_followed(options: Options)
    ensures
        ({
            let begun = run::started(options);
            &&& begun.dry_run == options.dry_run
            &&& begun.create_pr == options.create_pr
            &&& begun.base_branch == options.base_branch@
            &&& begun.apps == options.apps@
            &&& options.branch_name matches Some(name) ==> begun.branch == name@ && !begun.unnamed
            &&& options.branch_name is None ==> begun.unnamed
            &&& options.apps@.len() == 0 ==> begun.pending == seq![Task::FindApps]
            &&& options.apps@.len() > 0 ==> begun.pending == run::plan(
                options.apps@,
                options.dry_run,
                options.create_pr,
                options.branch_name is None,
            )
            &&& begun.transformed.len() == 0
            &&& !begun.infra_synced
            &&& !begun.config_synced
            &&& begun.pr_url is None
        }),
{
}

/// What is asked for is what the first step that is left needs: a look, a read, a write or a
/// removal at its own place, or its command with the sync's own branch, base and applications.
pub proof fn step_asks_for_its_own_place(run: RunView)
    ensures
        run.pending.len() == 0 ==> run::asked(run) == ActionView::Finish,
        run.pending.len() > 0 ==> run::asked(run) == match run.pending[0] {
            Task::FindApps => ActionView::ListSource,
            Task::CheckStale(app) => ActionView::Exists(Place::TargetApp(app)),
            Task::RemoveStale(app) => ActionView::RemoveTree(Place::TargetApp(app)),
            Task::MakeAppDir(app) => ActionView::MakeDirs(Place::TargetApp(app)),
            Task::CopyApp(app) => ActionView::Run(request::app_copy(app, run.dry_run)),
            Task::CheckInfra => ActionView::Exists(Place::SourceInfra),
            Task::CopyInfra => ActionView::Run(request::infra_copy(run.dry_run)),
            Task::CheckConfig => ActionView::Exists(Place::SourceConfig),
            Task::MakeConfigDir => ActionView::MakeDirs(Place::TargetConfigDir),
            Task::CopyConfig => ActionView::Run(request::config_copy(run.dry_run)),
            Task::ReadConfig => ActionView::Read(Place::TargetConfig),
            Task::ReadSourceManifest => ActionView::Read(Place::SourceManifest),
            Task::ReadTargetManifest(_) => ActionView::Read(Place::TargetManifest),
            Task::CheckManifest(app) => ActionView::Exists(Place::TargetAppManifest(app)),
            Task::ReadManifest(app) => ActionView::Read(Place::TargetAppManifest(app)),
            Task::WalkApp(app) => ActionView::Walk(Place::TargetApp(app)),
            Task::ReadSource(app, position, _) => ActionView::Read(
                Place::TargetAppFile(app, position),
            ),
            Task::Write(place, content) => ActionView::Write(place, content@),
            Task::CheckLock => ActionView::Exists(Place::TargetLock),
            Task::RemoveLock => ActionView::RemoveFile(Place::TargetLock),
            Task::Relock => ActionView::Run(request::relock()),
            Task::ReadVersion => ActionView::Read(Place::SourceManifest),
            Task::Checkout => ActionView::Run(request::checkout(run.branch)),
            Task::Stage => ActionView::Run(
                request::stage(
                    request::staged_paths(
                        run.apps.map_values(|app: String| app@),
                        run.infra_synced,
                        run.config_synced,
                    ),
                ),
            ),
            Task::Commit => ActionView::Run(request::commit()),
            Task::Push => ActionView::Run(request::push(run.branch)),
            Task::OpenPr => ActionView::Run(request::open_pr(run.base_branch)),
        },
{
    assert(run.apps.map_values(|app: String| app@) =~= text::views(run.apps));
}

/// No reply changes the settings of a sync. Each of the rest is changed by one kind of step only,
/// and what was noted as transformed stays noted.
pub proof fn settings_never_change(run: RunView, reply: Reply, next: SyncRun)
    requires
        run::answered(run, reply, Ok(next)),
    ensures
        run.pending.len() > 0,
        next@.dry_run == run.dry_run,
        next@.create_pr == run.create_pr,
        next@.unnamed == run.unnamed,
        next@.base_branch == run.base_branch,
        !(run.pending[0] is FindApps) ==> next@.apps == run.apps,
        !(run.pending[0] is ReadVersion) ==> next@.branch == run.branch,
        !(run.pending[0] is CheckInfra) ==> next@.infra_synced == run.infra_synced,
        !(run.pending[0] is CheckConfig) ==> next@.config_synced == run.config_synced,
        !(run.pending[0] is OpenPr) ==> next@.pr_url == run.pr_url,
        next@.transformed == run.transformed || next@.transformed.drop_last() == run.transformed,
        run.pending.len() - 1 <= next@.pending.len(),
        next@.pending.skip(next@.pending.len() - (run.pending.len() - 1)) == run.pending.skip(1),
{
    let rest = run.pending.skip(1);
    let more = next@.pending.len() - rest.len();
    assert(next@.pending.take(more) + rest =~= next@.pending);
    assert(run.transformed =~= run.transformed.push(Place::Target).drop_last());
    assert forall|place: Place| #[trigger]
        run.transformed.push(place).drop_last() == run.transformed by {
        assert(run.transformed.push(place).drop_last() =~= run.transformed);
    }
}

/// A step is left behind, and nothing is added in its place.
pub open spec fn moves_on(run: RunView, next: RunView) -> bool {
    next.pending == run.pending.skip(1)
}

/// Only a step that looks takes an answer. What is there decides: a directory of an application
/// from before is removed, unless in a dry run; infrastructure and configuration are copied, and
/// noted as synced, exactly if the source has them, and the registry of a configuration that was
/// really copied is seen to; a manifest is read; a lock file is removed, unless in a dry run.
pub proof fn what_is_there_decides(run: RunView, there: bool, r: Result<SyncRun, SyncError>)
    requires
        run.pending.len() > 0,
        run::answered(run, Reply::Answer(there), r),
    ensures
        ({
            let rest = run.pending.skip(1);
            match run.pending[0] {
                Task::CheckStale(app) => {
                    &&& r matches Ok(next)
                    &&& there && !run.dry_run ==> next@.pending == seq![Task::RemoveStale(app)] + rest
                    &&& !there || run.dry_run ==> next@.pending == rest
                },
                Task::CheckInfra => {
                    &&& r matches Ok(next)
                    &&& next@.infra_synced == there
                    &&& there ==> next@.pending == seq![Task::CopyInfra] + rest
                    &&& !there ==> next@.pending == rest
                },
                Task::CheckConfig => {
                    &&& r matches Ok(next)
                    &&& next@.config_synced == there
                    &&& there && run.dry_run ==> next@.pending == seq![Task::CopyConfig] + rest
                    &&& there && !run.dry_run ==> next@.pending == seq![
                        Task::MakeConfigDir,
                        Task::CopyConfig,
                        Task::ReadConfig,
                    ] + rest
                    &&& !there ==> next@.pending == rest
                },
                Task::CheckManifest(app) => {
                    &&& r matches Ok(next)
                    &&& there ==> next@.pending == seq![Task::ReadManifest(app)] + rest
                    &&& !there ==> next@.pending == rest
                },
                Task::CheckLock => {
                    &&& r matches Ok(next)
                    &&& there && !run.dry_run ==> next@.pending == seq![Task::RemoveLock] + rest
                    &&& !there || run.dry_run ==> next@.pending == rest
                },
                _ => r matches Err(e) && e is UnexpectedReply,
            }
        }),
{
    assert(Seq::<Task>::empty() + run.pending.skip(1) =~= run.pending.skip(1));
}

/// Only a step that makes, writes or removes is done, and then it is left behind, with nothing
/// changed.
pub proof fn done_is_done(run: RunView, r: Result<SyncRun, SyncError>)
    requires
        run.pending.len() > 0,
        run::answered(run, Reply::Done, r),
    ensures
        match run.pending[0] {
            Task::RemoveStale(_)
            | Task::MakeAppDir(_)
            | Task::MakeConfigDir
            | Task::Write(_, _)
            | Task::RemoveLock => {
                &&& r matches Ok(next)
                &&& moves_on(run, next@)
                &&& next@.transformed == run.transformed
            },
            _ => r matches Err(e) && e is UnexpectedReply,
        },
{
    assert(Seq::<Task>::empty() + run.pending.skip(1) =~= run.pending.skip(1));
}

/// Only a step that runs a command takes its end. A command that failed ends the sync with what
/// it wrote to its errors; after any other the sync moves on, and the address of the pull request
/// is what its command wrote, trimmed.
pub proof fn failed_command_ends_the_sync(
    run: RunView,
    success: bool,
    stdout: String,
    stderr: String,
    r: Result<SyncRun, SyncError>,
)
    requires
        run.pending.len() > 0,
        run::answered(run, Reply::Ran { success, stdout, stderr }, r),
    ensures
        ({
            let ran = |before: Seq<char>|
                if success {
                    &&& r matches Ok(next)
                    &&& moves_on(run, next@)
                    &&& next@.transformed == run.transformed
                    &&& next@.pr_url == if run.pending[0] is OpenPr {
                        Some(text::trimmed(stdout@))
                    } else {
                        run.pr_url
                    }
                } else {
                    r matches Err(SyncError::CommandFailed { message }) && message@ == before
                        + stderr@
                };
            match run.pending[0] {
                Task::CopyApp(app) => ran("rsync failed for app '"@ + app@ + "': "@),
                Task::CopyInfra => ran("rsync failed for infra: "@),
                Task::CopyConfig => ran("rsync failed for .cargo/config.toml: "@),
                Task::Relock => ran("cargo generate-lockfile failed: "@),
                Task::Checkout => ran("git checkout -b failed: "@),
                Task::Stage => ran("git add failed: "@),
                Task::Commit => ran("git commit failed: "@),
                Task::Push => ran("git push failed: "@),
                Task::OpenPr => ran("gh pr create failed: "@),
                _ => r matches Err(e) && e is UnexpectedReply,
            }
        }),
{
    assert(Seq::<Task>::empty() + run.pending.skip(1) =~= run.pending.skip(1));
}

/// What cannot be done ends the sync, with the reason and with the path at which it was tried.
/// Only a look cannot fail.
pub proof fn what_cannot_be_done_ends_the_sync(
    run: RunView,
    path: String,
    message: String,
    r: Result<SyncRun, SyncError>,
)
    requires
        run.pending.len() > 0,
        run::answered(run, Reply::Failed { path, message }, r),
    ensures
        ({
            let told = |text: Seq<char>|
                r matches Err(SyncError::ActionFailed { context, message: m }) && context@ == text
                    && m == message;
            match run.pending[0] {
                Task::FindApps => told("Failed to read source directory: "@ + path@),
                Task::RemoveStale(_) => told("Failed to remove directory: "@ + path@),
                Task::MakeAppDir(_) => told("Failed to create directory: "@ + path@),
                Task::MakeConfigDir => told("Failed to create .cargo directory in target"@),
                Task::ReadSourceManifest => told("Failed to read source Cargo.toml: "@ + path@),
                Task::ReadTargetManifest(_) => told("Failed to read target Cargo.toml: "@ + path@),
                Task::ReadConfig => told("Failed to read "@ + path@),
                Task::ReadManifest(_) => told("Failed to read "@ + path@),
                Task::ReadSource(_, _, _) => told("Failed to read "@ + path@),
                Task::ReadVersion => told("Failed to read "@ + path@),
                Task::Write(place, _) => told(
                    if place is TargetManifest {
                        "Failed to write Cargo.toml: "@ + path@
                    } else {
                        "Failed to write "@ + path@
                    },
                ),
                Task::RemoveLock => told("Failed to delete "@ + path@),
                Task::CopyApp(app) => told("Failed to spawn "@ + ("rsync for app '"@ + app@ + "'"@)),
                Task::CopyInfra => told("Failed to spawn "@ + "rsync for infra"@),
                Task::CopyConfig => told("Failed to spawn "@ + "rsync for .cargo/config.toml"@),
                Task::Relock => told("Failed to spawn "@ + "cargo generate-lockfile"@),
                Task::Checkout => told("Failed to spawn "@ + "git checkout"@),
                Task::Stage => told("Failed to spawn "@ + "git add"@),
                Task::Commit => told("Failed to spawn "@ + "git commit"@),
                Task::Push => told("Failed to spawn "@ + "git push"@),
                Task::OpenPr => told("Failed to spawn "@ + "gh pr create"@),
                _ => r matches Err(e) && e is UnexpectedReply,
            }
        }),
{
}

/// A file is transformed: it is noted, and it is written at its own place before anything else;
/// in a dry run nothing is written.
pub open spec fn rewrites(run: RunView, next: RunView, place: Place) -> bool {
    &&& next.transformed == run.transformed.push(place)
    &&& run.dry_run ==> next.pending == run.pending.skip(1)
    &&& !run.dry_run ==> next.pending.len() > 0 && next.pending.skip(1) == run.pending.skip(1)
    &&& !run.dry_run ==> match next.pending[0] {
        Task::Write(at, _) => at == place,
        _ => false,
    }
}

/// What is to be written next.
pub open spec fn written(next: RunView) -> Seq<char> {
    match next.pending[0] {
        Task::Write(_, content) => content@,
        _ => Seq::empty(),
    }
}

/// The copied configuration is written back with the registry in it, and is not noted as
/// transformed. One that cannot be parsed, or whose registries are no table, ends the sync.
pub proof fn configuration_is_written_back(
    run: RunView,
    path: String,
    content: String,
    r: Result<SyncRun, SyncError>,
)
    requires
        run.pending.len() > 0,
        run.pending[0] is ReadConfig,
        run::answered(run, Reply::Content { path, content }, r),
    ensures
        match toml::toml_parse(content@) {
            Err(message) => match r {
                Err(SyncError::BadToml { input, message: m }) => input == TomlInput::CargoConfig
                    && m@ == message,
                _ => false,
            },
            Ok(tree) => match toml::lookup(tree, "registries"@) {
                Some(found) => if found is Table {
                    r is Ok
                } else {
                    r matches Err(e) && e is RegistriesNotTable
                },
                None => r is Ok,
            },
        },
        r matches Ok(next) ==> {
            &&& next@.transformed == run.transformed
            &&& next@.pending.len() > 0
            &&& next@.pending.skip(1) == run.pending.skip(1)
            &&& match next@.pending[0] {
                Task::Write(at, written) => at == Place::TargetConfig && manifest::prints(
                    written@,
                    manifest::with_fsl_registry(toml::toml_parse(content@)->Ok_0)->Some_0,
                ),
                _ => false,
            }
        },
{
    if let Ok(next) = r {
        assert(next@.pending.skip(1) =~= run.pending.skip(1));
    }
}

/// The source's manifest is kept as it is until the target's is read.
pub proof fn source_manifest_is_kept(
    run: RunView,
    path: String,
    content: String,
    r: Result<SyncRun, SyncError>,
)
    requires
        run.pending.len() > 0,
        run.pending[0] is ReadSourceManifest,
        run::answered(run, Reply::Content { path, content }, r),
    ensures
        r matches Ok(next) && next@.pending == seq![Task::ReadTargetManifest(content)]
            + run.pending.skip(1) && next@.transformed == run.transformed,
{
}

/// The target's manifest becomes the source's merged into it. One of them that cannot be parsed
/// ends the sync, the source's first.
pub proof fn target_manifest_takes_the_sources(
    run: RunView,
    source: String,
    path: String,
    content: String,
    r: Result<SyncRun, SyncError>,
)
    requires
        run.pending.len() > 0,
        run.pending[0] == Task::ReadTargetManifest(source),
        run::answered(run, Reply::Content { path, content }, r),
    ensures
        match (toml::toml_parse(source@), toml::toml_parse(content@)) {
            (Err(message), _) => match r {
                Err(SyncError::BadToml { input, message: m }) => input == TomlInput::SourceManifest
                    && m@ == message,
                _ => false,
            },
            (Ok(_), Err(message)) => match r {
                Err(SyncError::BadToml { input, message: m }) => input == TomlInput::TargetManifest
                    && m@ == message,
                _ => false,
            },
            (Ok(src), Ok(dst)) => match r {
                Ok(next) => {
                    &&& rewrites(run, next@, Place::TargetManifest)
                    &&& !run.dry_run ==> manifest::prints(
                        written(next@),
                        manifest::transformed_root(src, dst),
                    )
                },
                Err(_) => false,
            },
        },
{
    if let Ok(next) = r {
        pending_is_kept(run, next@);
    }
}

proof fn pending_is_kept(run: RunView, next: RunView)
    requires
        run.pending.len() > 0,
    ensures
        Seq::<Task>::empty() + run.pending.skip(1) == run.pending.skip(1),
        next.pending == seq![next.pending[0]] + run.pending.skip(1) ==> next.pending.skip(1)
            == run.pending.skip(1),
{
    assert(Seq::<Task>::empty() + run.pending.skip(1) =~= run.pending.skip(1));
    if next.pending == seq![next.pending[0]] + run.pending.skip(1) {
        assert(next.pending.skip(1) =~= run.pending.skip(1));
    }
}

/// The manifest of an application is made fit for the applications of the sync, whatever it
/// holds. One that cannot be parsed ends the sync.
pub proof fn manifest_of_an_app_is_made_fit(
    run: RunView,
    app: String,
    path: String,
    content: String,
    r: Result<SyncRun, SyncError>,
)
    requires
        run.pending.len() > 0,
        run.pending[0] == Task::ReadManifest(app),
        run::answered(run, Reply::Content { path, content }, r),
    ensures
        match toml::toml_parse(content@) {
            Err(message) => match r {
                Err(SyncError::BadToml { input, message: m }) => input == TomlInput::AppManifest
                    && m@ == message,
                _ => false,
            },
            Ok(tree) => match r {
                Ok(next) => {
                    &&& rewrites(run, next@, Place::TargetAppManifest(app))
                    &&& !run.dry_run ==> manifest::prints(
                        written(next@),
                        manifest::stripped_manifest(tree, run.apps.map_values(|a: String| a@)),
                    )
                },
                Err(_) => false,
            },
        },
{
    assert(run.apps.map_values(|a: String| a@) =~= text::views(run.apps));
    if let Ok(next) = r {
        pending_is_kept(run, next@);
    }
}

/// A source whose paths are right already is neither noted nor written; any other is, with its
/// paths adjusted to its depth.
pub proof fn source_is_adjusted_to_its_depth(
    run: RunView,
    app: String,
    position: usize,
    depth: usize,
    path: String,
    content: String,
    r: Result<SyncRun, SyncError>,
)
    requires
        run.pending.len() > 0,
        run.pending[0] == Task::ReadSource(app, position, depth),
        run::answered(run, Reply::Content { path, content }, r),
    ensures
        match r {
            Ok(next) => {
                let out = relative_paths::adjusted(content@, depth as nat);
                &&& out == content@ ==> moves_on(run, next@) && next@.transformed
                    == run.transformed
                &&& out != content@ ==> rewrites(run, next@, Place::TargetAppFile(app, position))
                &&& out != content@ && !run.dry_run ==> written(next@) == out
            },
            Err(_) => false,
        },
{
    if let Ok(next) = r {
        pending_is_kept(run, next@);
    }
}

/// The branch without a name is named after the version in the source's manifest. Without a
/// version, or with a manifest that cannot be parsed, the sync ends.
pub proof fn branch_is_named_after_the_version(
    run: RunView,
    path: String,
    content: String,
    r: Result<SyncRun, SyncError>,
)
    requires
        run.pending.len() > 0,
        run.pending[0] is ReadVersion,
        run::answered(run, Reply::Content { path, content }, r),
    ensures
        match toml::toml_parse(content@) {
            Err(message) => match r {
                Err(SyncError::BadVersionToml { path: p, message: m }) => p@ == path@ && m@
                    == message,
                _ => false,
            },
            Ok(tree) => match manifest_laws::within(
                manifest_laws::within(toml::lookup(tree, "workspace"@), "package"@),
                "version"@,
            ) {
                Some(Toml::Text(version)) => match r {
                    Ok(next) => {
                        &&& next@.branch == "chore/sync-fdk-apps-"@ + version
                        &&& moves_on(run, next@)
                        &&& next@.transformed == run.transformed
                    },
                    Err(_) => false,
                },
                _ => r matches Err(e) && e is NoWorkspaceVersion,
            },
        },
{
    if let Ok(next) = r {
        pending_is_kept(run, next@);
    }
}

/// Only a step that reads takes what a file holds; only the search takes a listing; only a walk
/// takes what was met; and a sync that is over takes nothing.
pub proof fn replies_must_fit(run: RunView, reply: Reply, r: Result<SyncRun, SyncError>)
    requires
        run::answered(run, reply, r),
        run.pending.len() == 0 || match reply {
            Reply::Content { .. } => match run.pending[0] {
                Task::ReadConfig
                | Task::ReadSourceManifest
                | Task::ReadTargetManifest(_)
                | Task::ReadManifest(_)
                | Task::ReadSource(_, _, _)
                | Task::ReadVersion => false,
                _ => true,
            },
            Reply::Entries(_) => !(run.pending[0] is FindApps),
            Reply::Walked(_) => !(run.pending[0] is WalkApp),
            _ => false,
        },
    ensures
        r matches Err(e) && e is UnexpectedReply,
{
}

/// The applications that are found are those of the listing, each as often as it is found there,
/// and sorted; the plan is the one for them.
pub proof fn found_apps_are_planned(
    run: RunView,
    entries: Vec<discover::SourceEntry>,
    r: Result<SyncRun, SyncError>,
)
    requires
        run.pending.len() > 0,
        run.pending[0] is FindApps,
        run::answered(run, Reply::Entries(entries), r),
    ensures
        match r {
            Ok(next) => {
                &&& text::is_sorted(next@.apps.map_values(|a: String| a@))
                &&& next@.apps.map_values(|a: String| a@).to_multiset() == discover::app_names(
                    entries@,
                ).to_multiset()
                &&& next@.pending == run::plan(
                    next@.apps,
                    run.dry_run,
                    run.create_pr,
                    run.unnamed,
                ) + run.pending.skip(1)
                &&& next@.transformed == run.transformed
            },
            Err(_) => false,
        },
{
    if let Ok(next) = r {
        assert(next@.apps.map_values(|a: String| a@) =~= text::views(next@.apps));
    }
}

/// Every Rust source that a walk met is read, at its own position and depth, in the order of the
/// walk, and nothing else is: an entry adds its step if its name ends in `.rs` after at least one
/// character.
pub proof fn every_source_is_read(app: String, walked: Seq<WalkedEntry>, entry: WalkedEntry)
    ensures
        run::sources(app, Seq::empty()).len() == 0,
        ({
            let n = entry.name@.len();
            let all = run::sources(app, walked.push(entry));
            let before = run::sources(app, walked);
            if n > 3 && entry.name@.skip(n - 3) == ".rs"@ {
                &&& all.len() == before.len() + 1
                &&& all.drop_last() == before
                &&& match all.last() {
                    Task::ReadSource(of, position, depth) => {
                        &&& of == app
                        &&& walked.len() <= usize::MAX ==> position == walked.len()
                        &&& entry.components > 0 ==> depth == entry.components - 1
                        &&& entry.components == 0 ==> depth == 0
                    },
                    _ => false,
                }
            } else {
                all == before
            }
        }),
{
    reveal_strlit(".rs");
    assert(".rs"@.len() == 3);
    let n = entry.name@.len();
    assert(walked.push(entry).drop_last() =~= walked);
    if n > 3 {
        assert(entry.name@.skip(n - 3) =~= entry.name@.subrange(n - 3, n - 3 + 3));
    }
    let before = run::sources(app, walked);
    assert forall|t: Task| (#[trigger] before.push(t)).drop_last() == before by {
        assert(before.push(t).drop_last() =~= before);
    }
}

/// A walk is followed by the reads of its sources, before anything else.
pub proof fn walk_leads_to_its_sources(
    run: RunView,
    app: String,
    walked: Vec<WalkedEntry>,
    r: Result<SyncRun, SyncError>,
)
    requires
        run.pending.len() > 0,
        run.pending[0] == Task::WalkApp(app),
        run::answered(run, Reply::Walked(walked), r),
    ensures
        match r {
            Ok(next) => {
                &&& next@.pending == run::sources(app, walked@) + run.pending.skip(1)
                &&& next@.transformed == run.transformed
            },
            Err(_) => false,
        },
{
}

} // verus!
