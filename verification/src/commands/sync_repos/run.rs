//! A sync, step by step: what it asks for, and what it does with the replies.
use vstd::prelude::*;

use super::discover;
use super::error::{SyncError, TomlInput};
use super::manifest;
use super::relative_paths;
use super::request;
use super::request::{Action, ActionView, Place, Reply, WalkedEntry};
use super::toml;
use super::{Options, SyncReposResult};
use crate::text;

verus! {

/// One step of a sync.
#[derive(Debug)]
pub enum Task {
    /// Find the applications of the source.
    FindApps,
    /// See whether the target has a directory of an application from before.
    CheckStale(String),
    RemoveStale(String),
    MakeAppDir(String),
    CopyApp(String),
    /// See whether the source has infrastructure.
    CheckInfra,
    CopyInfra,
    /// See whether the source has a Cargo configuration.
    CheckConfig,
    MakeConfigDir,
    CopyConfig,
    /// Read the copied configuration, to ensure the registry in it.
    ReadConfig,
    ReadSourceManifest,
    /// Read the target's root manifest, to merge this source manifest into it.
    ReadTargetManifest(String),
    /// See whether a copied application has a manifest.
    CheckManifest(String),
    ReadManifest(String),
    /// Look for Rust sources in a copied application.
    WalkApp(String),
    /// Read what the walk met at that position, at that depth below the application.
    ReadSource(String, usize, usize),
    Write(Place, String),
    /// See whether the target has a `Cargo.lock`.
    CheckLock,
    RemoveLock,
    Relock,
    /// Read the source's version, to name the branch after it.
    ReadVersion,
    Checkout,
    Stage,
    Commit,
    Push,
    OpenPr,
}

/// A sync under way.
#[derive(Debug)]
pub struct SyncRun {
    pub dry_run: bool,
    pub create_pr: bool,
    /// The branch of the pull request; empty as long as it is to be named after the version.
    pub branch: String,
    /// The branch is to be named after the version.
    pub unnamed: bool,
    pub base_branch: String,
    pub apps: Vec<String>,
    /// What is left to do, in order.
    pub pending: Vec<Task>,
    /// The files that were transformed, in order.
    pub transformed: Vec<Place>,
    pub infra_synced: bool,
    pub config_synced: bool,
    pub pr_url: Option<String>,
}

/// A sync under way as it is specified.
pub struct RunView {
    pub dry_run: bool,
    pub create_pr: bool,
    pub branch: Seq<char>,
    pub unnamed: bool,
    pub base_branch: Seq<char>,
    pub apps: Seq<String>,
    pub pending: Seq<Task>,
    pub transformed: Seq<Place>,
    pub infra_synced: bool,
    pub config_synced: bool,
    pub pr_url: Option<Seq<char>>,
}

impl View for SyncRun {
    type V = RunView;

    open spec fn view(&self) -> RunView {
        RunView {
            dry_run: self.dry_run,
            create_pr: self.create_pr,
            branch: self.branch@,
            unnamed: self.unnamed,
            base_branch: self.base_branch@,
            apps: self.apps@,
            pending: self.pending@,
            transformed: self.transformed@,
            infra_synced: self.infra_synced,
            config_synced: self.config_synced,
            pr_url: match self.pr_url {
                Some(url) => Some(url@),
                None => None,
            },
        }
    }
}

/// The steps that copy the applications. A dry run creates no directory.
pub open spec fn copies(apps: Seq<String>, dry_run: bool) -> Seq<Task>
    decreases apps.len(),
{
    if apps.len() == 0 {
        Seq::empty()
    } else {
        copies(apps.drop_last(), dry_run) + (if dry_run {
            Seq::empty()
        } else {
            seq![Task::MakeAppDir(apps.last())]
        }) + seq![Task::CopyApp(apps.last())]
    }
}

/// The steps of a pull request.
pub open spec fn pr_tasks(unnamed: bool) -> Seq<Task> {
    (if unnamed {
        seq![Task::ReadVersion]
    } else {
        Seq::empty()
    }) + seq![Task::Checkout, Task::Stage, Task::Commit, Task::Push, Task::OpenPr]
}

/// The steps of a sync of these applications.
pub open spec fn plan(apps: Seq<String>, dry_run: bool, create_pr: bool, unnamed: bool) -> Seq<
    Task,
> {
    apps.map_values(|app: String| Task::CheckStale(app)) + copies(apps, dry_run) + seq![
        Task::CheckInfra,
        Task::CheckConfig,
        Task::ReadSourceManifest,
    ] + apps.map_values(|app: String| Task::CheckManifest(app)) + apps.map_values(
        |app: String| Task::WalkApp(app),
    ) + seq![Task::CheckLock] + (if dry_run {
        Seq::empty()
    } else {
        seq![Task::Relock]
    }) + (if create_pr && !dry_run {
        pr_tasks(unnamed)
    } else {
        Seq::empty()
    })
}

/// A sync at its beginning.
pub open spec fn started(options: Options) -> RunView {
    RunView {
        dry_run: options.dry_run,
        create_pr: options.create_pr,
        branch: match options.branch_name {
            Some(name) => name@,
            None => Seq::empty(),
        },
        unnamed: options.branch_name is None,
        base_branch: options.base_branch@,
        apps: options.apps@,
        pending: if options.apps@.len() == 0 {
            seq![Task::FindApps]
        } else {
            plan(
                options.apps@,
                options.dry_run,
                options.create_pr,
                options.branch_name is None,
            )
        },
        transformed: Seq::empty(),
        infra_synced: false,
        config_synced: false,
        pr_url: None,
    }
}

/// What a step asks for.
pub open spec fn task_action(run: RunView, task: Task) -> ActionView {
    match task {
        Task::FindApps => ActionView::ListSource,
        Task::CheckStale(app) => ActionView::Exists(Place::TargetApp(app)),
        Task::RemoveStale(app) => ActionView::RemoveTree(Place::TargetApp(app)),
        Task::MakeAppDir(app) => ActionView::MakeDirs(Place::TargetApp(app)),
        Task::CopyApp(app) => ActionView::Run(request::app_copy(app, run.dry_run)),
        Task::CheckInfra => ActionView::Exists(Place::SourceInfra),
        Task::CopyInfra => ActionView::Run(request::infra_copy(run.dry_run)),
        Task::CheckConfig => ActionView::Exists(Place::SourceConfig),
        Task::MakeConfigDir => ActionView::MakeDirs(Place::TargetConfigDir),
        Task::CopyConfig => ActionView::Run(request::config_copy(run.dry_run)),
        Task::ReadConfig => ActionView::Read(Place::TargetConfig),
        Task::ReadSourceManifest => ActionView::Read(Place::SourceManifest),
        Task::ReadTargetManifest(_) => ActionView::Read(Place::TargetManifest),
        Task::CheckManifest(app) => ActionView::Exists(Place::TargetAppManifest(app)),
        Task::ReadManifest(app) => ActionView::Read(Place::TargetAppManifest(app)),
        Task::WalkApp(app) => ActionView::Walk(Place::TargetApp(app)),
        Task::ReadSource(app, position, _) => ActionView::Read(
            Place::TargetAppFile(app, position),
        ),
        Task::Write(place, content) => ActionView::Write(place, content@),
        Task::CheckLock => ActionView::Exists(Place::TargetLock),
        Task::RemoveLock => ActionView::RemoveFile(Place::TargetLock),
        Task::Relock => ActionView::Run(request::relock()),
        Task::ReadVersion => ActionView::Read(Place::SourceManifest),
        Task::Checkout => ActionView::Run(request::checkout(run.branch)),
        Task::Stage => ActionView::Run(
            request::stage(
                request::staged_paths(
                    text::views(run.apps),
                    run.infra_synced,
                    run.config_synced,
                ),
            ),
        ),
        Task::Commit => ActionView::Run(request::commit()),
        Task::Push => ActionView::Run(request::push(run.branch)),
        Task::OpenPr => ActionView::Run(request::open_pr(run.base_branch)),
    }
}

/// What a sync asks for next.
pub open spec fn asked(run: RunView) -> ActionView {
    if run.pending.len() == 0 {
        ActionView::Finish
    } else {
        task_action(run, run.pending[0])
    }
}

/// What a step's failure is reported with, before what the command wrote.
pub open spec fn failure(task: Task) -> Option<Seq<char>> {
    match task {
        Task::CopyApp(app) => Some("rsync failed for app '"@ + app@ + "': "@),
        Task::CopyInfra => Some("rsync failed for infra: "@),
        Task::CopyConfig => Some("rsync failed for .cargo/config.toml: "@),
        Task::Relock => Some("cargo generate-lockfile failed: "@),
        Task::Checkout => Some("git checkout -b failed: "@),
        Task::Stage => Some("git add failed: "@),
        Task::Commit => Some("git commit failed: "@),
        Task::Push => Some("git push failed: "@),
        Task::OpenPr => Some("gh pr create failed: "@),
        _ => None,
    }
}

/// What is reported where what a step asks for cannot be done at that path; only a look never
/// fails.
pub open spec fn undone(run: RunView, task: Task, path: Seq<char>) -> Option<Seq<char>> {
    match task {
        Task::FindApps => Some("Failed to read source directory: "@ + path),
        Task::RemoveStale(_) => Some("Failed to remove directory: "@ + path),
        Task::MakeAppDir(_) => Some("Failed to create directory: "@ + path),
        Task::MakeConfigDir => Some("Failed to create .cargo directory in target"@),
        Task::ReadSourceManifest => Some("Failed to read source Cargo.toml: "@ + path),
        Task::ReadTargetManifest(_) => Some("Failed to read target Cargo.toml: "@ + path),
        Task::ReadConfig
        | Task::ReadManifest(_)
        | Task::ReadSource(_, _, _)
        | Task::ReadVersion => Some("Failed to read "@ + path),
        Task::Write(place, _) => if place == Place::TargetManifest {
            Some("Failed to write Cargo.toml: "@ + path)
        } else {
            Some("Failed to write "@ + path)
        },
        Task::RemoveLock => Some("Failed to delete "@ + path),
        Task::CheckStale(_)
        | Task::CheckInfra
        | Task::CheckConfig
        | Task::CheckManifest(_)
        | Task::WalkApp(_)
        | Task::CheckLock => None,
        _ => match task_action(run, task) {
            ActionView::Run(command) => Some("Failed to spawn "@ + command.purpose),
            _ => None,
        },
    }
}

/// The sync after its first step, which led to `more` steps.
pub open spec fn continued(run: RunView, more: Seq<Task>) -> RunView {
    RunView { pending: more + run.pending.skip(1), ..run }
}

/// The sync after its first step, which transformed a file. A dry run writes nothing.
pub open spec fn transforms(
    run: RunView,
    next: RunView,
    place: Place,
    content: spec_fn(Seq<char>) -> bool,
) -> bool {
    let noted = RunView { transformed: run.transformed.push(place), ..run };
    if run.dry_run {
        next == continued(noted, Seq::empty())
    } else {
        &&& next.pending.len() > 0
        &&& next.pending[0] matches Task::Write(written, out) && written == place && content(out@)
        &&& next == continued(noted, seq![next.pending[0]])
    }
}

/// The name is that of a Rust source.
pub open spec fn is_rust(name: Seq<char>) -> bool {
    name.len() > 3 && text::occurs_at(name, ".rs"@, name.len() - 3)
}

/// The steps that read the Rust sources among what a walk met.
pub open spec fn sources(app: String, walked: Seq<WalkedEntry>) -> Seq<Task>
    decreases walked.len(),
{
    if walked.len() == 0 {
        Seq::empty()
    } else {
        let entry = walked.last();
        let before = sources(app, walked.drop_last());
        if is_rust(entry.name@) {
            before.push(
                Task::ReadSource(
                    app,
                    (walked.len() - 1) as usize,
                    if entry.components == 0 {
                        0
                    } else {
                        (entry.components - 1) as usize
                    },
                ),
            )
        } else {
            before
        }
    }
}

/// What a reply makes of a sync.
pub open spec fn answered(run: RunView, reply: Reply, r: Result<SyncRun, SyncError>) -> bool {
    if run.pending.len() == 0 {
        r == Err::<SyncRun, SyncError>(SyncError::UnexpectedReply)
    } else {
        let task = run.pending[0];
        match reply {
            Reply::Entries(entries) => match task {
                Task::FindApps => {
                    &&& r matches Ok(next)
                    &&& text::is_sorted(text::views(next.apps@))
                    &&& text::views(next.apps@).to_multiset() == discover::app_names(
                        entries@,
                    ).to_multiset()
                    &&& next@ == (RunView {
                        apps: next.apps@,
                        ..continued(
                            run,
                            plan(next.apps@, run.dry_run, run.create_pr, run.unnamed),
                        )
                    })
                },
                _ => r == Err::<SyncRun, SyncError>(SyncError::UnexpectedReply),
            },
            Reply::Answer(there) => match task {
                Task::CheckStale(app) => r matches Ok(next) && next@ == continued(
                    run,
                    if there && !run.dry_run {
                        seq![Task::RemoveStale(app)]
                    } else {
                        Seq::empty()
                    },
                ),
                Task::CheckInfra => r matches Ok(next) && next@ == continued(
                    RunView { infra_synced: there, ..run },
                    if there {
                        seq![Task::CopyInfra]
                    } else {
                        Seq::empty()
                    },
                ),
                Task::CheckConfig => r matches Ok(next) && next@ == continued(
                    RunView { config_synced: there, ..run },
                    if !there {
                        Seq::empty()
                    } else if run.dry_run {
                        seq![Task::CopyConfig]
                    } else {
                        seq![Task::MakeConfigDir, Task::CopyConfig, Task::ReadConfig]
                    },
                ),
                Task::CheckManifest(app) => r matches Ok(next) && next@ == continued(
                    run,
                    if there {
                        seq![Task::ReadManifest(app)]
                    } else {
                        Seq::empty()
                    },
                ),
                Task::CheckLock => r matches Ok(next) && next@ == continued(
                    run,
                    if there && !run.dry_run {
                        seq![Task::RemoveLock]
                    } else {
                        Seq::empty()
                    },
                ),
                _ => r == Err::<SyncRun, SyncError>(SyncError::UnexpectedReply),
            },
            Reply::Done => match task {
                Task::RemoveStale(_)
                | Task::MakeAppDir(_)
                | Task::MakeConfigDir
                | Task::Write(_, _)
                | Task::RemoveLock => r matches Ok(next) && next@ == continued(
                    run,
                    Seq::empty(),
                ),
                _ => r == Err::<SyncRun, SyncError>(SyncError::UnexpectedReply),
            },
            Reply::Content { path, content } => content_answered(run, task, path, content, r),
            Reply::Walked(walked) => match task {
                Task::WalkApp(app) => r matches Ok(next) && next@ == continued(
                    run,
                    sources(app, walked@),
                ),
                _ => r == Err::<SyncRun, SyncError>(SyncError::UnexpectedReply),
            },
            Reply::Ran { success, stdout, stderr } => match failure(task) {
                Some(before) => if !success {
                    r matches Err(SyncError::CommandFailed { message }) && message@ == before
                        + stderr@
                } else {
                    r matches Ok(next) && next@ == continued(
                        RunView {
                            pr_url: if task is OpenPr {
                                Some(text::trimmed(stdout@))
                            } else {
                                run.pr_url
                            },
                            ..run
                        },
                        Seq::empty(),
                    )
                },
                None => r == Err::<SyncRun, SyncError>(SyncError::UnexpectedReply),
            },
            Reply::Failed { path, message } => match undone(run, task, path@) {
                Some(text) => r matches Err(SyncError::ActionFailed { context, message: m })
                    && context@ == text && m == message,
                None => r == Err::<SyncRun, SyncError>(SyncError::UnexpectedReply),
            },
        }
    }
}

/// What the content of a file makes of a sync that read it.
pub open spec fn content_answered(
    run: RunView,
    task: Task,
    path: String,
    content: String,
    r: Result<SyncRun, SyncError>,
) -> bool {
    match task {
        Task::ReadConfig => match toml::toml_parse(content@) {
            Ok(tree) => match manifest::with_fsl_registry(tree) {
                Some(out) => {
                    &&& r matches Ok(next)
                    &&& next@.pending.len() > 0
                    &&& next@.pending[0] matches Task::Write(place, written) && place
                        == Place::TargetConfig && manifest::prints(written@, out)
                    &&& next@ == continued(run, seq![next@.pending[0]])
                },
                None => r == Err::<SyncRun, SyncError>(SyncError::RegistriesNotTable),
            },
            Err(message) => r matches Err(SyncError::BadToml { input, message: m }) && input
                == TomlInput::CargoConfig && m@ == message,
        },
        Task::ReadSourceManifest => r matches Ok(next) && next@ == continued(
            run,
            seq![Task::ReadTargetManifest(content)],
        ),
        Task::ReadTargetManifest(source) => match (
            toml::toml_parse(source@),
            toml::toml_parse(content@),
        ) {
            (Ok(src), Ok(dst)) => r matches Ok(next) && transforms(
                run,
                next@,
                Place::TargetManifest,
                |out: Seq<char>| manifest::prints(out, manifest::transformed_root(src, dst)),
            ),
            (Err(message), _) => r matches Err(SyncError::BadToml { input, message: m }) && input
                == TomlInput::SourceManifest && m@ == message,
            (Ok(_), Err(message)) => r matches Err(SyncError::BadToml { input, message: m })
                && input == TomlInput::TargetManifest && m@ == message,
        },
        Task::ReadManifest(app) => match toml::toml_parse(content@) {
            Ok(tree) => r matches Ok(next) && transforms(
                run,
                next@,
                Place::TargetAppManifest(app),
                |out: Seq<char>|
                    manifest::prints(
                        out,
                        manifest::stripped_manifest(tree, text::views(run.apps)),
                    ),
            ),
            Err(message) => r matches Err(SyncError::BadToml { input, message: m }) && input
                == TomlInput::AppManifest && m@ == message,
        },
        Task::ReadSource(app, position, depth) => {
            let out = relative_paths::adjusted(content@, depth as nat);
            &&& r matches Ok(next)
            &&& if out == content@ {
                next@ == continued(run, Seq::empty())
            } else {
                transforms(
                    run,
                    next@,
                    Place::TargetAppFile(app, position),
                    |written: Seq<char>| written == out,
                )
            }
        },
        Task::ReadVersion => match toml::toml_parse(content@) {
            Ok(tree) => match manifest::workspace_version(tree) {
                Some(version) => r matches Ok(next) && next@ == continued(
                    RunView { branch: "chore/sync-fdk-apps-"@ + version, ..run },
                    Seq::empty(),
                ),
                None => r == Err::<SyncRun, SyncError>(SyncError::NoWorkspaceVersion),
            },
            Err(message) => r matches Err(SyncError::BadVersionToml { path: p, message: m })
                && p@ == path@ && m@ == message,
        },
        _ => r == Err::<SyncRun, SyncError>(SyncError::UnexpectedReply),
    }
}

/// The steps of a sync of these applications.
fn plan_tasks(apps: &[String], dry_run: bool, create_pr: bool, unnamed: bool) -> (r: Vec<Task>)
    ensures
        r@ == plan(apps@, dry_run, create_pr, unnamed),
{
    let ghost stale = apps@.map_values(|app: String| Task::CheckStale(app));
    let mut tasks: Vec<Task> = Vec::new();
    let mut i: usize = 0;
    assert(tasks@ =~= stale.take(0));
    while i < apps.len()
        invariant
            i <= apps.len(),
            stale == apps@.map_values(|app: String| Task::CheckStale(app)),
            tasks@ == stale.take(i as int),
        decreases apps.len() - i,
    {
        tasks.push(Task::CheckStale(apps[i].clone()));
        assert(stale.take(i + 1) =~= stale.take(i as int).push(stale[i as int]));
        i += 1;
    }
    assert(stale.take(i as int) =~= stale);
    i = 0;
    assert(tasks@ =~= stale + copies(apps@.take(0), dry_run));
    while i < apps.len()
        invariant
            i <= apps.len(),
            tasks@ == stale + copies(apps@.take(i as int), dry_run),
        decreases apps.len() - i,
    {
        if !dry_run {
            tasks.push(Task::MakeAppDir(apps[i].clone()));
        }
        tasks.push(Task::CopyApp(apps[i].clone()));
        proof {
            assert(apps@.take(i + 1).drop_last() =~= apps@.take(i as int));
            assert(tasks@ =~= stale + copies(apps@.take(i + 1), dry_run));
        }
        i += 1;
    }
    assert(apps@.take(i as int) =~= apps@);
    tasks.push(Task::CheckInfra);
    tasks.push(Task::CheckConfig);
    tasks.push(Task::ReadSourceManifest);
    let ghost head = stale + copies(apps@, dry_run) + seq![
        Task::CheckInfra,
        Task::CheckConfig,
        Task::ReadSourceManifest,
    ];
    assert(tasks@ =~= head);
    let ghost manifests = apps@.map_values(|app: String| Task::CheckManifest(app));
    i = 0;
    assert(tasks@ =~= head + manifests.take(0));
    while i < apps.len()
        invariant
            i <= apps.len(),
            manifests == apps@.map_values(|app: String| Task::CheckManifest(app)),
            tasks@ == head + manifests.take(i as int),
        decreases apps.len() - i,
    {
        tasks.push(Task::CheckManifest(apps[i].clone()));
        assert(tasks@ =~= head + manifests.take(i + 1));
        i += 1;
    }
    assert(manifests.take(i as int) =~= manifests);
    let ghost walks = apps@.map_values(|app: String| Task::WalkApp(app));
    i = 0;
    assert(tasks@ =~= head + manifests + walks.take(0));
    while i < apps.len()
        invariant
            i <= apps.len(),
            walks == apps@.map_values(|app: String| Task::WalkApp(app)),
            tasks@ == head + manifests + walks.take(i as int),
        decreases apps.len() - i,
    {
        tasks.push(Task::WalkApp(apps[i].clone()));
        assert(tasks@ =~= head + manifests + walks.take(i + 1));
        i += 1;
    }
    assert(walks.take(i as int) =~= walks);
    tasks.push(Task::CheckLock);
    if !dry_run {
        tasks.push(Task::Relock);
        if create_pr {
            if unnamed {
                tasks.push(Task::ReadVersion);
            }
            tasks.push(Task::Checkout);
            tasks.push(Task::Stage);
            tasks.push(Task::Commit);
            tasks.push(Task::Push);
            tasks.push(Task::OpenPr);
        }
    }
    assert(tasks@ =~= plan(apps@, dry_run, create_pr, unnamed));
    tasks
}

/// A sync with these options, at its beginning.
pub fn sync_repos(options: &Options) -> (r: SyncRun)
    ensures
        r@ == started(*options),
{
    let apps = text::copy_texts(options.apps.as_slice());
    let pending = if apps.len() == 0 {
        let mut find: Vec<Task> = Vec::new();
        find.push(Task::FindApps);
        assert(find@ =~= seq![Task::FindApps]);
        find
    } else {
        plan_tasks(
            apps.as_slice(),
            options.dry_run,
            options.create_pr,
            options.branch_name.is_none(),
        )
    };
    let branch = match &options.branch_name {
        Some(name) => name.clone(),
        None => String::new(),
    };
    SyncRun {
        dry_run: options.dry_run,
        create_pr: options.create_pr,
        branch,
        unnamed: options.branch_name.is_none(),
        base_branch: options.base_branch.clone(),
        apps,
        pending,
        transformed: Vec::new(),
        infra_synced: false,
        config_synced: false,
        pr_url: None,
    }
}

/// The name is that of a Rust source.
fn is_rust_name(name: &str) -> (r: bool)
    ensures
        r == is_rust(name@),
{
    let cs = text::chars(name);
    proof {
        reveal_strlit(".rs");
        if name@.len() > 3 {
            let tail = name@.subrange(name@.len() - 3, name@.len() as int);
            assert(tail =~= ".rs"@ <==> tail[0] == '.' && tail[1] == 'r' && tail[2] == 's');
        }
    }
    let n: usize = cs.len();
    n > 3 && cs[n - 3] == '.' && cs[n - 2] == 'r' && cs[n - 1] == 's'
}

/// The steps that read the Rust sources among what a walk met.
fn source_tasks(app: &String, walked: &[WalkedEntry]) -> (r: Vec<Task>)
    ensures
        r@ == sources(*app, walked@),
{
    let mut tasks: Vec<Task> = Vec::new();
    let mut i: usize = 0;
    assert(tasks@ =~= sources(*app, walked@.take(0)));
    while i < walked.len()
        invariant
            i <= walked.len(),
            tasks@ == sources(*app, walked@.take(i as int)),
        decreases walked.len() - i,
    {
        assert(walked@.take(i + 1).drop_last() =~= walked@.take(i as int));
        let entry = &walked[i];
        if is_rust_name(entry.name.as_str()) {
            let depth: usize = if entry.components == 0 {
                0
            } else {
                entry.components - 1
            };
            tasks.push(Task::ReadSource(app.clone(), i, depth));
        }
        i += 1;
    }
    assert(walked@.take(i as int) =~= walked@);
    tasks
}

impl SyncRun {
    /// What the sync asks for next.
    pub fn request(&self) -> (r: Action)
        ensures
            r@ == asked(self@),
    {
        if self.pending.len() == 0 {
            return Action::Finish;
        }
        match &self.pending[0] {
            Task::FindApps => Action::ListSource,
            Task::CheckStale(app) => Action::Exists(Place::TargetApp(app.clone())),
            Task::RemoveStale(app) => Action::RemoveTree(Place::TargetApp(app.clone())),
            Task::MakeAppDir(app) => Action::MakeDirs(Place::TargetApp(app.clone())),
            Task::CopyApp(app) => Action::Run(request::app_copy_command(app, self.dry_run)),
            Task::CheckInfra => Action::Exists(Place::SourceInfra),
            Task::CopyInfra => Action::Run(request::infra_copy_command(self.dry_run)),
            Task::CheckConfig => Action::Exists(Place::SourceConfig),
            Task::MakeConfigDir => Action::MakeDirs(Place::TargetConfigDir),
            Task::CopyConfig => Action::Run(request::config_copy_command(self.dry_run)),
            Task::ReadConfig => Action::Read(Place::TargetConfig),
            Task::ReadSourceManifest => Action::Read(Place::SourceManifest),
            Task::ReadTargetManifest(_) => Action::Read(Place::TargetManifest),
            Task::CheckManifest(app) => Action::Exists(Place::TargetAppManifest(app.clone())),
            Task::ReadManifest(app) => Action::Read(Place::TargetAppManifest(app.clone())),
            Task::WalkApp(app) => Action::Walk(Place::TargetApp(app.clone())),
            Task::ReadSource(app, position, _) => Action::Read(
                Place::TargetAppFile(app.clone(), *position),
            ),
            Task::Write(place, content) => Action::Write(place.clone(), content.clone()),
            Task::CheckLock => Action::Exists(Place::TargetLock),
            Task::RemoveLock => Action::RemoveFile(Place::TargetLock),
            Task::Relock => Action::Run(request::relock_command()),
            Task::ReadVersion => Action::Read(Place::SourceManifest),
            Task::Checkout => Action::Run(request::checkout_command(self.branch.as_str())),
            Task::Stage => {
                let paths = request::paths_to_stage(
                    self.apps.as_slice(),
                    self.infra_synced,
                    self.config_synced,
                );
                Action::Run(request::stage_command(paths.as_slice()))
            },
            Task::Commit => Action::Run(request::commit_command()),
            Task::Push => Action::Run(request::push_command(self.branch.as_str())),
            Task::OpenPr => Action::Run(request::open_pr_command(self.base_branch.as_str())),
        }
    }

    /// The sync with `more` steps before those that are left.
    fn with_tasks(self, more: Vec<Task>) -> (r: SyncRun)
        ensures
            r@ == (RunView { pending: more@ + self@.pending, ..self@ }),
    {
        let mut run = self;
        let mut pending = more;
        pending.append(&mut run.pending);
        run.pending = pending;
        run
    }

    /// The sync with one more step before those that are left.
    fn with_task(self, task: Task) -> (r: SyncRun)
        ensures
            r@ == (RunView { pending: seq![task] + self@.pending, ..self@ }),
    {
        let mut more: Vec<Task> = Vec::new();
        more.push(task);
        assert(more@ =~= seq![task]);
        self.with_tasks(more)
    }

    /// The sync after a file was transformed.
    fn with_transformed(self, place: Place, content: String) -> (r: SyncRun)
        ensures
            r@ == (RunView {
                transformed: self@.transformed.push(place),
                pending: if self@.dry_run {
                    self@.pending
                } else {
                    seq![Task::Write(place, content)] + self@.pending
                },
                ..self@
            }),
    {
        let mut run = self;
        run.transformed.push(place.clone());
        if run.dry_run {
            run
        } else {
            run.with_task(Task::Write(place, content))
        }
    }

    /// What the content of a file makes of the sync, the step that read it taken off.
    fn with_content(
        self,
        task: Task,
        path: String,
        content: String,
        Ghost(before): Ghost<RunView>,
    ) -> (r: Result<SyncRun, SyncError>)
        requires
            before.pending.len() > 0,
            before.pending[0] == task,
            self@ == (RunView { pending: before.pending.skip(1), ..before }),
        ensures
            content_answered(before, task, path, content, r),
    {
        let ghost rest = before.pending.skip(1);
        assert(Seq::<Task>::empty() + rest =~= rest);
        match task {
            Task::ReadConfig => match manifest::ensure_fsl_registry(content.as_str()) {
                Ok(out) => {
                    Ok(self.with_task(Task::Write(Place::TargetConfig, out)))
                },
                Err(error) => Err(error),
            },
            Task::ReadSourceManifest => Ok(self.with_task(Task::ReadTargetManifest(content))),
            Task::ReadTargetManifest(source) => match manifest::transform_root_cargo_toml(
                source.as_str(),
                content.as_str(),
            ) {
                Ok(out) => Ok(self.with_transformed(Place::TargetManifest, out)),
                Err(error) => Err(error),
            },
            Task::ReadManifest(app) => match manifest::strip_path_from_deps(
                content.as_str(),
                self.apps.as_slice(),
            ) {
                Ok(out) => Ok(self.with_transformed(Place::TargetAppManifest(app), out)),
                Err(error) => Err(error),
            },
            Task::ReadSource(app, position, depth) => match relative_paths::adjust_source(
                content.as_str(),
                depth,
            ) {
                Some(out) => Ok(
                    self.with_transformed(Place::TargetAppFile(app, position), out),
                ),
                None => Ok(self),
            },
            Task::ReadVersion => match manifest::read_workspace_version(
                path.as_str(),
                content.as_str(),
            ) {
                Ok(version) => {
                    let mut run = self;
                    run.branch = "chore/sync-fdk-apps-".to_owned().concat(version.as_str());
                    Ok(run)
                },
                Err(error) => Err(error),
            },
            _ => Err(SyncError::UnexpectedReply),
        }
    }

    /// What a command that ended makes of the sync, the step that ran it taken off.
    fn with_ended(self, task: Task, success: bool, stdout: String, stderr: String) -> (r: Result<
        SyncRun,
        SyncError,
    >)
        ensures
            match failure(task) {
                Some(before) => if !success {
                    r matches Err(SyncError::CommandFailed { message }) && message@ == before
                        + stderr@
                } else {
                    r matches Ok(next) && next@ == (RunView {
                        pr_url: if task is OpenPr {
                            Some(text::trimmed(stdout@))
                        } else {
                            self@.pr_url
                        },
                        ..self@
                    })
                },
                None => r == Err::<SyncRun, SyncError>(SyncError::UnexpectedReply),
            },
    {
        let mut opened: bool = false;
        let before = match task {
            Task::CopyApp(app) => "rsync failed for app '".to_owned().concat(app.as_str()).concat(
                "': ",
            ),
            Task::CopyInfra => "rsync failed for infra: ".to_owned(),
            Task::CopyConfig => "rsync failed for .cargo/config.toml: ".to_owned(),
            Task::Relock => "cargo generate-lockfile failed: ".to_owned(),
            Task::Checkout => "git checkout -b failed: ".to_owned(),
            Task::Stage => "git add failed: ".to_owned(),
            Task::Commit => "git commit failed: ".to_owned(),
            Task::Push => "git push failed: ".to_owned(),
            Task::OpenPr => {
                opened = true;
                "gh pr create failed: ".to_owned()
            },
            _ => {
                return Err(SyncError::UnexpectedReply);
            },
        };
        if !success {
            return Err(SyncError::CommandFailed { message: before.concat(stderr.as_str()) });
        }
        let mut run = self;
        if opened {
            run.pr_url = Some(text::trim_text(stdout.as_str()));
        }
        Ok(run)
    }

    /// Whether something stands there makes this of the sync, the step that asked taken off.
    fn with_answer(self, task: Task, there: bool) -> (r: Result<SyncRun, SyncError>)
        ensures
            match task {
                Task::CheckStale(app) => r matches Ok(next) && next@ == (RunView {
                    pending: (if there && !self@.dry_run {
                        seq![Task::RemoveStale(app)]
                    } else {
                        Seq::empty()
                    }) + self@.pending,
                    ..self@
                }),
                Task::CheckInfra => r matches Ok(next) && next@ == (RunView {
                    infra_synced: there,
                    pending: (if there {
                        seq![Task::CopyInfra]
                    } else {
                        Seq::empty()
                    }) + self@.pending,
                    ..self@
                }),
                Task::CheckConfig => r matches Ok(next) && next@ == (RunView {
                    config_synced: there,
                    pending: (if !there {
                        Seq::empty()
                    } else if self@.dry_run {
                        seq![Task::CopyConfig]
                    } else {
                        seq![Task::MakeConfigDir, Task::CopyConfig, Task::ReadConfig]
                    }) + self@.pending,
                    ..self@
                }),
                Task::CheckManifest(app) => r matches Ok(next) && next@ == (RunView {
                    pending: (if there {
                        seq![Task::ReadManifest(app)]
                    } else {
                        Seq::empty()
                    }) + self@.pending,
                    ..self@
                }),
                Task::CheckLock => r matches Ok(next) && next@ == (RunView {
                    pending: (if there && !self@.dry_run {
                        seq![Task::RemoveLock]
                    } else {
                        Seq::empty()
                    }) + self@.pending,
                    ..self@
                }),
                _ => r == Err::<SyncRun, SyncError>(SyncError::UnexpectedReply),
            },
    {
        assert(Seq::<Task>::empty() + self@.pending =~= self@.pending);
        let mut run = self;
        match task {
            Task::CheckStale(app) => if there && !run.dry_run {
                Ok(run.with_task(Task::RemoveStale(app)))
            } else {
                Ok(run)
            },
            Task::CheckInfra => {
                run.infra_synced = there;
                if there {
                    Ok(run.with_task(Task::CopyInfra))
                } else {
                    Ok(run)
                }
            },
            Task::CheckConfig => {
                run.config_synced = there;
                if !there {
                    Ok(run)
                } else if run.dry_run {
                    Ok(run.with_task(Task::CopyConfig))
                } else {
                    let mut more: Vec<Task> = Vec::new();
                    more.push(Task::MakeConfigDir);
                    more.push(Task::CopyConfig);
                    more.push(Task::ReadConfig);
                    assert(more@ =~= seq![Task::MakeConfigDir, Task::CopyConfig, Task::ReadConfig]);
                    Ok(run.with_tasks(more))
                }
            },
            Task::CheckManifest(app) => if there {
                Ok(run.with_task(Task::ReadManifest(app)))
            } else {
                Ok(run)
            },
            Task::CheckLock => if there && !run.dry_run {
                Ok(run.with_task(Task::RemoveLock))
            } else {
                Ok(run)
            },
            _ => Err(SyncError::UnexpectedReply),
        }
    }

    /// What is reported where what the sync asks for cannot be done at that path.
    fn undone_text(&self, path: &str) -> (r: Option<String>)
        requires
            self@.pending.len() > 0,
        ensures
            match undone(self@, self@.pending[0], path@) {
                Some(text) => r matches Some(t) && t@ == text,
                None => r is None,
            },
    {
        let before = match &self.pending[0] {
            Task::FindApps => "Failed to read source directory: ",
            Task::RemoveStale(_) => "Failed to remove directory: ",
            Task::MakeAppDir(_) => "Failed to create directory: ",
            Task::MakeConfigDir => {
                return Some("Failed to create .cargo directory in target".to_owned());
            },
            Task::ReadSourceManifest => "Failed to read source Cargo.toml: ",
            Task::ReadTargetManifest(_) => "Failed to read target Cargo.toml: ",
            Task::ReadConfig
            | Task::ReadManifest(_)
            | Task::ReadSource(_, _, _)
            | Task::ReadVersion => "Failed to read ",
            Task::Write(Place::TargetManifest, _) => "Failed to write Cargo.toml: ",
            Task::Write(_, _) => "Failed to write ",
            Task::RemoveLock => "Failed to delete ",
            Task::CheckStale(_)
            | Task::CheckInfra
            | Task::CheckConfig
            | Task::CheckManifest(_)
            | Task::WalkApp(_)
            | Task::CheckLock => {
                return None;
            },
            _ => {
                return match self.request() {
                    Action::Run(command) => Some(
                        "Failed to spawn ".to_owned().concat(command.purpose.as_str()),
                    ),
                    _ => None,
                };
            },
        };
        Some(before.to_owned().concat(path))
    }

    /// The sync after the reply to what it asked for.
    pub fn reply(self, reply: Reply) -> (r: Result<SyncRun, SyncError>)
        ensures
            answered(self@, reply, r),
    {
        let ghost before = self@;
        let mut run = self;
        if run.pending.len() == 0 {
            return Err(SyncError::UnexpectedReply);
        }
        let failed = match &reply {
            Reply::Failed { path, .. } => run.undone_text(path.as_str()),
            _ => None,
        };
        let task = run.pending.remove(0);
        proof {
            assert(run@.pending =~= before.pending.skip(1));
            assert(Seq::<Task>::empty() + run@.pending =~= run@.pending);
        }
        match reply {
            Reply::Entries(entries) => match task {
                Task::FindApps => {
                    let apps = discover::discover_apps(entries.as_slice());
                    let more = plan_tasks(
                        apps.as_slice(),
                        run.dry_run,
                        run.create_pr,
                        run.unnamed,
                    );
                    run.apps = apps;
                    Ok(run.with_tasks(more))
                },
                _ => Err(SyncError::UnexpectedReply),
            },
            Reply::Answer(there) => run.with_answer(task, there),
            Reply::Done => match task {
                Task::RemoveStale(_)
                | Task::MakeAppDir(_)
                | Task::MakeConfigDir
                | Task::Write(_, _)
                | Task::RemoveLock => Ok(run),
                _ => Err(SyncError::UnexpectedReply),
            },
            Reply::Content { path, content } => run.with_content(
                task,
                path,
                content,
                Ghost(before),
            ),
            Reply::Walked(walked) => match task {
                Task::WalkApp(app) => {
                    let more = source_tasks(&app, walked.as_slice());
                    Ok(run.with_tasks(more))
                },
                _ => Err(SyncError::UnexpectedReply),
            },
            Reply::Ran { success, stdout, stderr } => run.with_ended(task, success, stdout, stderr),
            Reply::Failed { path, message } => match failed {
                Some(context) => Err(SyncError::ActionFailed { context, message }),
                None => Err(SyncError::UnexpectedReply),
            },
        }
    }

    /// The files that the sync transformed, in order, the lock file last.
    pub fn transformed_places(&self) -> (r: Vec<Place>)
        ensures
            r@ == self@.transformed.push(Place::TargetLock),
    {
        let mut places: Vec<Place> = Vec::new();
        let mut i: usize = 0;
        assert(places@ =~= self@.transformed.take(0));
        while i < self.transformed.len()
            invariant
                i <= self.transformed.len(),
                places@ == self@.transformed.take(i as int),
            decreases self.transformed.len() - i,
        {
            places.push(self.transformed[i].clone());
            assert(self@.transformed.take(i + 1) =~= self@.transformed.take(i as int).push(
                self@.transformed[i as int],
            ));
            i += 1;
        }
        assert(self@.transformed.take(i as int) =~= self@.transformed);
        places.push(Place::TargetLock);
        places
    }

    /// What the sync did, the transformed files given by their paths.
    pub fn finish(self, transformed_files: Vec<String>) -> (r: SyncReposResult)
        ensures
            r.synced_apps@ == self@.apps,
            r.transformed_files == transformed_files,
            r.dry_run == self@.dry_run,
            match self@.pr_url {
                Some(url) => r.pr_url matches Some(u) && u@ == url,
                None => r.pr_url is None,
            },
    {
        SyncReposResult {
            synced_apps: self.apps,
            transformed_files,
            dry_run: self.dry_run,
            pr_url: self.pr_url,
        }
    }
}

} // verus!
