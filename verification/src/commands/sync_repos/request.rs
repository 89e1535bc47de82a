//! What a sync asks the program around it to do, and what it is told in reply.
use vstd::prelude::*;

use super::discover::SourceEntry;
use crate::text;

verus! {

/// A place in the source or in the target.
#[derive(Debug, PartialEq, Eq)]
pub enum Place {
    /// The source directory.
    Source,
    /// `{app}` in the source.
    SourceApp(String),
    /// `infra` in the source.
    SourceInfra,
    /// `.cargo/config.toml` in the source.
    SourceConfig,
    /// `Cargo.toml` in the source.
    SourceManifest,
    /// The target directory.
    Target,
    /// `apps/{app}` in the target.
    TargetApp(String),
    /// `apps/{app}/Cargo.toml` in the target.
    TargetAppManifest(String),
    /// What a walk through `apps/{app}` in the target met at that position.
    TargetAppFile(String, usize),
    /// `infra` in the target.
    TargetInfra,
    /// `.cargo` in the target.
    TargetConfigDir,
    /// `.cargo/config.toml` in the target.
    TargetConfig,
    /// `Cargo.toml` in the target.
    TargetManifest,
    /// `Cargo.lock` in the target.
    TargetLock,
}

impl Clone for Place {
    fn clone(&self) -> (r: Self)
        ensures
            r == *self,
    {
        match self {
            Place::Source => Place::Source,
            Place::SourceApp(app) => Place::SourceApp(app.clone()),
            Place::SourceInfra => Place::SourceInfra,
            Place::SourceConfig => Place::SourceConfig,
            Place::SourceManifest => Place::SourceManifest,
            Place::Target => Place::Target,
            Place::TargetApp(app) => Place::TargetApp(app.clone()),
            Place::TargetAppManifest(app) => Place::TargetAppManifest(app.clone()),
            Place::TargetAppFile(app, position) => Place::TargetAppFile(app.clone(), *position),
            Place::TargetInfra => Place::TargetInfra,
            Place::TargetConfigDir => Place::TargetConfigDir,
            Place::TargetConfig => Place::TargetConfig,
            Place::TargetManifest => Place::TargetManifest,
            Place::TargetLock => Place::TargetLock,
        }
    }
}

/// The directory that a place is in.
#[derive(Debug, Clone, Copy, PartialEq, Eq, Structural)]
pub enum Root {
    Source,
    Target,
}

/// The directory that a place is in.
pub open spec fn root_of(place: Place) -> Root {
    match place {
        Place::Source
        | Place::SourceApp(_)
        | Place::SourceInfra
        | Place::SourceConfig
        | Place::SourceManifest => Root::Source,
        _ => Root::Target,
    }
}

/// The path of a place below that directory, component by component. What a walk met stands at
/// `walked` below its application.
pub open spec fn path_of(place: Place, walked: Seq<Seq<char>>) -> Seq<Seq<char>> {
    match place {
        Place::Source | Place::Target => Seq::empty(),
        Place::SourceApp(app) => seq![app@],
        Place::SourceInfra | Place::TargetInfra => seq!["infra"@],
        Place::SourceConfig | Place::TargetConfig => seq![".cargo"@, "config.toml"@],
        Place::SourceManifest | Place::TargetManifest => seq!["Cargo.toml"@],
        Place::TargetApp(app) => seq!["apps"@, app@],
        Place::TargetAppManifest(app) => seq!["apps"@, app@, "Cargo.toml"@],
        Place::TargetAppFile(app, _) => seq!["apps"@, app@] + walked,
        Place::TargetConfigDir => seq![".cargo"@],
        Place::TargetLock => seq!["Cargo.lock"@],
    }
}

impl Place {
    /// The directory that the place is in.
    pub fn root(&self) -> (r: Root)
        ensures
            r == root_of(*self),
    {
        match self {
            Place::Source
            | Place::SourceApp(_)
            | Place::SourceInfra
            | Place::SourceConfig
            | Place::SourceManifest => Root::Source,
            _ => Root::Target,
        }
    }

    /// The path of the place below that directory, component by component; what a walk met
    /// stands at `walked` below its application.
    pub fn path_below(&self, walked: &[String]) -> (r: Vec<String>)
        ensures
            text::views(r@) == path_of(*self, text::views(walked@)),
    {
        let mut path: Vec<String> = Vec::new();
        assert(text::views(path@) =~= Seq::empty());
        match self {
            Place::Source | Place::Target => {},
            Place::SourceApp(app) => push_path(&mut path, app.as_str()),
            Place::SourceInfra | Place::TargetInfra => push_path(&mut path, "infra"),
            Place::SourceConfig | Place::TargetConfig => {
                push_path(&mut path, ".cargo");
                push_path(&mut path, "config.toml");
            },
            Place::SourceManifest | Place::TargetManifest => push_path(&mut path, "Cargo.toml"),
            Place::TargetApp(app) => {
                push_path(&mut path, "apps");
                push_path(&mut path, app.as_str());
            },
            Place::TargetAppManifest(app) => {
                push_path(&mut path, "apps");
                push_path(&mut path, app.as_str());
                push_path(&mut path, "Cargo.toml");
            },
            Place::TargetAppFile(app, _) => {
                push_path(&mut path, "apps");
                push_path(&mut path, app.as_str());
                let ghost head = text::views(path@);
                let ghost names = text::views(walked@);
                let mut i: usize = 0;
                assert(text::views(path@) =~= head + names.take(0));
                while i < walked.len()
                    invariant
                        i <= walked.len(),
                        names == text::views(walked@),
                        text::views(path@) == head + names.take(i as int),
                    decreases walked.len() - i,
                {
                    push_path(&mut path, walked[i].as_str());
                    assert(text::views(path@) =~= head + names.take(i + 1));
                    i += 1;
                }
                assert(names.take(i as int) =~= names);
            },
            Place::TargetConfigDir => push_path(&mut path, ".cargo"),
            Place::TargetLock => push_path(&mut path, "Cargo.lock"),
        }
        assert(text::views(path@) =~= path_of(*self, text::views(walked@)));
        path
    }
}

/// An argument of a command.
#[derive(Debug, Clone, PartialEq, Eq)]
pub enum Arg {
    /// As it stands.
    Text(String),
    /// The path of a directory, with a slash at its end.
    Dir(Place),
    /// The path of a file.
    File(Place),
}

/// An argument as it is specified.
pub enum ArgView {
    Text(Seq<char>),
    Dir(Place),
    File(Place),
}

impl View for Arg {
    type V = ArgView;

    open spec fn view(&self) -> ArgView {
        match *self {
            Arg::Text(s) => ArgView::Text(s@),
            Arg::Dir(place) => ArgView::Dir(place),
            Arg::File(place) => ArgView::File(place),
        }
    }
}

/// The arguments of a list as they are specified.
pub open spec fn arg_views(args: Seq<Arg>) -> Seq<ArgView> {
    args.map_values(|arg: Arg| arg@)
}

/// A command to run.
#[derive(Debug, Clone, PartialEq, Eq)]
pub struct Command {
    pub program: String,
    pub args: Vec<Arg>,
    /// The directory to run it in.
    pub dir: Place,
    /// What it is called where it cannot be started.
    pub purpose: String,
}

/// A command as it is specified.
pub struct CommandView {
    pub program: Seq<char>,
    pub args: Seq<ArgView>,
    pub dir: Place,
    pub purpose: Seq<char>,
}

impl View for Command {
    type V = CommandView;

    open spec fn view(&self) -> CommandView {
        CommandView {
            program: self.program@,
            args: arg_views(self.args@),
            dir: self.dir,
            purpose: self.purpose@,
        }
    }
}

/// What is to be done next.
#[derive(Debug, Clone, PartialEq, Eq)]
pub enum Action {
    /// List the source directory.
    ListSource,
    /// Say whether something stands there.
    Exists(Place),
    /// Remove a directory and all that is in it.
    RemoveTree(Place),
    /// Remove a file.
    RemoveFile(Place),
    /// Create a directory and those above it.
    MakeDirs(Place),
    /// Read a text file.
    Read(Place),
    /// Write a text file.
    Write(Place, String),
    /// Walk through a directory.
    Walk(Place),
    /// Run a command.
    Run(Command),
    /// Nothing is left.
    Finish,
}

/// An action as it is specified.
pub enum ActionView {
    ListSource,
    Exists(Place),
    RemoveTree(Place),
    RemoveFile(Place),
    MakeDirs(Place),
    Read(Place),
    Write(Place, Seq<char>),
    Walk(Place),
    Run(CommandView),
    Finish,
}

impl View for Action {
    type V = ActionView;

    open spec fn view(&self) -> ActionView {
        match *self {
            Action::ListSource => ActionView::ListSource,
            Action::Exists(place) => ActionView::Exists(place),
            Action::RemoveTree(place) => ActionView::RemoveTree(place),
            Action::RemoveFile(place) => ActionView::RemoveFile(place),
            Action::MakeDirs(place) => ActionView::MakeDirs(place),
            Action::Read(place) => ActionView::Read(place),
            Action::Write(place, content) => ActionView::Write(place, content@),
            Action::Walk(place) => ActionView::Walk(place),
            Action::Run(command) => ActionView::Run(command@),
            Action::Finish => ActionView::Finish,
        }
    }
}

/// What a walk met.
#[derive(Debug, Clone, PartialEq, Eq)]
pub struct WalkedEntry {
    /// Its name.
    pub name: String,
    /// The number of components of its path below where the walk began.
    pub components: usize,
}

/// What became of an action. A path is the one that is shown to the user.
#[derive(Debug, Clone, PartialEq, Eq)]
pub enum Reply {
    /// The entries of the source directory.
    Entries(Vec<SourceEntry>),
    /// Whether something stands there.
    Answer(bool),
    /// It is done.
    Done,
    /// What the file at that path holds.
    Content { path: String, content: String },
    /// What the walk met, in order.
    Walked(Vec<WalkedEntry>),
    /// The command ran.
    Ran { success: bool, stdout: String, stderr: String },
    /// It could not be done, at that path; a command could not be started.
    Failed { path: String, message: String },
}

/// Text as an argument.
pub open spec fn texts(list: Seq<Seq<char>>) -> Seq<ArgView> {
    list.map_values(|s: Seq<char>| ArgView::Text(s))
}

/// Adds `arg` to the arguments.
fn push_arg(args: &mut Vec<Arg>, arg: Arg)
    ensures
        arg_views(final(args)@) == arg_views(old(args)@).push(arg@),
{
    let ghost before = args@;
    args.push(arg);
    assert(arg_views(args@) =~= arg_views(before).push(arg@));
}

/// Adds `s` to the arguments.
fn push_text(args: &mut Vec<Arg>, s: &str)
    ensures
        arg_views(final(args)@) == arg_views(old(args)@).push(ArgView::Text(s@)),
{
    push_arg(args, Arg::Text(s.to_owned()));
}

/// Adds the flag of a dry run to the arguments, if it is one.
fn push_dry_run(args: &mut Vec<Arg>, dry_run: bool)
    ensures
        arg_views(final(args)@) == arg_views(old(args)@) + dry_flag(dry_run),
{
    let ghost before = args@;
    if dry_run {
        push_text(args, "--dry-run");
        assert(arg_views(args@) =~= arg_views(before) + dry_flag(dry_run));
    } else {
        assert(arg_views(args@) =~= arg_views(before) + dry_flag(dry_run));
    }
}

/// The flag of a dry run, if it is one.
pub open spec fn dry_flag(dry_run: bool) -> Seq<ArgView> {
    if dry_run {
        seq![ArgView::Text("--dry-run"@)]
    } else {
        Seq::empty()
    }
}

/// The command that copies one application, build outputs left out.
pub open spec fn app_copy(app: String, dry_run: bool) -> CommandView {
    CommandView {
        program: "rsync"@,
        args: seq![
            ArgView::Text("-a"@),
            ArgView::Text("--delete"@),
            ArgView::Text("--exclude=dist"@),
            ArgView::Text("--exclude=target"@),
            ArgView::Text("--exclude=node_modules"@),
        ] + dry_flag(dry_run) + seq![
            ArgView::Dir(Place::SourceApp(app)),
            ArgView::Dir(Place::TargetApp(app)),
        ],
        dir: Place::Source,
        purpose: "rsync for app '"@ + app@ + "'"@,
    }
}

/// The command that copies the infrastructure, its state left out.
pub open spec fn infra_copy(dry_run: bool) -> CommandView {
    CommandView {
        program: "rsync"@,
        args: seq![
            ArgView::Text("-a"@),
            ArgView::Text("--delete"@),
            ArgView::Text("--exclude=.terraform"@),
            ArgView::Text("--exclude=*.tfstate*"@),
            ArgView::Text("--exclude=terraform.tfvars"@),
        ] + dry_flag(dry_run) + seq![
            ArgView::Dir(Place::SourceInfra),
            ArgView::Dir(Place::TargetInfra),
        ],
        dir: Place::Source,
        purpose: "rsync for infra"@,
    }
}

/// The command that copies Cargo's configuration.
pub open spec fn config_copy(dry_run: bool) -> CommandView {
    CommandView {
        program: "rsync"@,
        args: seq![ArgView::Text("-a"@)] + dry_flag(dry_run) + seq![
            ArgView::File(Place::SourceConfig),
            ArgView::File(Place::TargetConfig),
        ],
        dir: Place::Source,
        purpose: "rsync for .cargo/config.toml"@,
    }
}

/// The command that makes a new `Cargo.lock`.
pub open spec fn relock() -> CommandView {
    CommandView {
        program: "cargo"@,
        args: texts(seq!["generate-lockfile"@]),
        dir: Place::Target,
        purpose: "cargo generate-lockfile"@,
    }
}

/// The command that starts a branch.
pub open spec fn checkout(branch: Seq<char>) -> CommandView {
    CommandView {
        program: "git"@,
        args: texts(seq!["checkout"@, "-b"@, branch]),
        dir: Place::Target,
        purpose: "git checkout"@,
    }
}

/// The paths to put into the commit: those that were synced, and no others.
pub open spec fn staged_paths(
    apps: Seq<Seq<char>>,
    infra_synced: bool,
    config_synced: bool,
) -> Seq<Seq<char>> {
    apps.map_values(|app: Seq<char>| "apps/"@ + app) + (if infra_synced {
        seq!["infra/"@]
    } else {
        Seq::empty()
    }) + (if config_synced {
        seq![".cargo/config.toml"@]
    } else {
        Seq::empty()
    }) + seq!["Cargo.toml"@, "Cargo.lock"@]
}

/// The command that puts paths into the commit.
pub open spec fn stage(paths: Seq<Seq<char>>) -> CommandView {
    CommandView {
        program: "git"@,
        args: seq![ArgView::Text("add"@)] + texts(paths),
        dir: Place::Target,
        purpose: "git add"@,
    }
}

/// The command that commits.
pub open spec fn commit() -> CommandView {
    CommandView {
        program: "git"@,
        args: texts(seq!["commit"@, "-m"@, "chore: sync fdk_apps"@]),
        dir: Place::Target,
        purpose: "git commit"@,
    }
}

/// The command that pushes the branch.
pub open spec fn push(branch: Seq<char>) -> CommandView {
    CommandView {
        program: "git"@,
        args: texts(seq!["push"@, "-u"@, "origin"@, branch]),
        dir: Place::Target,
        purpose: "git push"@,
    }
}

/// The command that opens the pull request.
pub open spec fn open_pr(base: Seq<char>) -> CommandView {
    CommandView {
        program: "gh"@,
        args: texts(
            seq![
                "pr"@,
                "create"@,
                "--base"@,
                base,
                "--title"@,
                "chore: sync fdk_apps"@,
                "--body"@,
                "Automated sync from fdk_apps workspace"@,
            ],
        ),
        dir: Place::Target,
        purpose: "gh pr create"@,
    }
}

/// The command that copies one application.
pub fn app_copy_command(app: &String, dry_run: bool) -> (r: Command)
    ensures
        r@ == app_copy(*app, dry_run),
{
    let mut args: Vec<Arg> = Vec::new();
    assert(arg_views(args@) =~= Seq::empty());
    push_text(&mut args, "-a");
    push_text(&mut args, "--delete");
    push_text(&mut args, "--exclude=dist");
    push_text(&mut args, "--exclude=target");
    push_text(&mut args, "--exclude=node_modules");
    push_dry_run(&mut args, dry_run);
    push_arg(&mut args, Arg::Dir(Place::SourceApp(app.clone())));
    push_arg(&mut args, Arg::Dir(Place::TargetApp(app.clone())));
    assert(arg_views(args@) =~= app_copy(*app, dry_run).args);
    Command {
        program: "rsync".to_owned(),
        args,
        dir: Place::Source,
        purpose: "rsync for app '".to_owned().concat(app.as_str()).concat("'"),
    }
}

/// The command that copies the infrastructure.
pub fn infra_copy_command(dry_run: bool) -> (r: Command)
    ensures
        r@ == infra_copy(dry_run),
{
    let mut args: Vec<Arg> = Vec::new();
    assert(arg_views(args@) =~= Seq::empty());
    push_text(&mut args, "-a");
    push_text(&mut args, "--delete");
    push_text(&mut args, "--exclude=.terraform");
    push_text(&mut args, "--exclude=*.tfstate*");
    push_text(&mut args, "--exclude=terraform.tfvars");
    push_dry_run(&mut args, dry_run);
    push_arg(&mut args, Arg::Dir(Place::SourceInfra));
    push_arg(&mut args, Arg::Dir(Place::TargetInfra));
    assert(arg_views(args@) =~= infra_copy(dry_run).args);
    Command {
        program: "rsync".to_owned(),
        args,
        dir: Place::Source,
        purpose: "rsync for infra".to_owned(),
    }
}

/// The command that copies Cargo's configuration.
pub fn config_copy_command(dry_run: bool) -> (r: Command)
    ensures
        r@ == config_copy(dry_run),
{
    let mut args: Vec<Arg> = Vec::new();
    assert(arg_views(args@) =~= Seq::empty());
    push_text(&mut args, "-a");
    push_dry_run(&mut args, dry_run);
    push_arg(&mut args, Arg::File(Place::SourceConfig));
    push_arg(&mut args, Arg::File(Place::TargetConfig));
    assert(arg_views(args@) =~= config_copy(dry_run).args);
    Command {
        program: "rsync".to_owned(),
        args,
        dir: Place::Source,
        purpose: "rsync for .cargo/config.toml".to_owned(),
    }
}

/// A command of plain texts, run in the target.
fn target_command(program: &str, words: &[&str], purpose: &str) -> (r: Command)
    ensures
        r@ == (CommandView {
            program: program@,
            args: texts(words@.map_values(|word: &str| word@)),
            dir: Place::Target,
            purpose: purpose@,
        }),
{
    let ghost all = words@.map_values(|word: &str| word@);
    let mut args: Vec<Arg> = Vec::new();
    let mut i: usize = 0;
    assert(arg_views(args@) =~= texts(all.take(0)));
    while i < words.len()
        invariant
            i <= words.len(),
            all == words@.map_values(|word: &str| word@),
            arg_views(args@) == texts(all.take(i as int)),
        decreases words.len() - i,
    {
        push_text(&mut args, words[i]);
        assert(texts(all.take(i + 1)) =~= texts(all.take(i as int)).push(
            ArgView::Text(all[i as int]),
        ));
        i += 1;
    }
    assert(all.take(i as int) =~= all);
    Command {
        program: program.to_owned(),
        args,
        dir: Place::Target,
        purpose: purpose.to_owned(),
    }
}

/// The command that makes a new `Cargo.lock`.
pub fn relock_command() -> (r: Command)
    ensures
        r@ == relock(),
{
    let r = target_command("cargo", &["generate-lockfile"], "cargo generate-lockfile");
    assert(r@.args =~= relock().args);
    r
}

/// The command that starts a branch.
pub fn checkout_command(branch: &str) -> (r: Command)
    ensures
        r@ == checkout(branch@),
{
    let r = target_command("git", &["checkout", "-b", branch], "git checkout");
    assert(r@.args =~= checkout(branch@).args);
    r
}

/// Adds `path` to the paths.
fn push_path(paths: &mut Vec<String>, path: &str)
    ensures
        text::views(final(paths)@) == text::views(old(paths)@).push(path@),
{
    let ghost before = paths@;
    paths.push(path.to_owned());
    assert(text::views(paths@) =~= text::views(before).push(path@));
}

/// The paths to put into the commit.
pub fn paths_to_stage(apps: &[String], infra_synced: bool, config_synced: bool) -> (r: Vec<String>)
    ensures
        text::views(r@) == staged_paths(text::views(apps@), infra_synced, config_synced),
{
    let ghost names = text::views(apps@);
    let ghost in_apps = names.map_values(|app: Seq<char>| "apps/"@ + app);
    let mut paths: Vec<String> = Vec::new();
    let mut i: usize = 0;
    assert(text::views(paths@) =~= in_apps.take(0));
    while i < apps.len()
        invariant
            i <= apps.len(),
            names == text::views(apps@),
            in_apps == names.map_values(|app: Seq<char>| "apps/"@ + app),
            text::views(paths@) == in_apps.take(i as int),
        decreases apps.len() - i,
    {
        let path = "apps/".to_owned().concat(apps[i].as_str());
        push_path(&mut paths, path.as_str());
        assert(in_apps.take(i + 1) =~= in_apps.take(i as int).push(in_apps[i as int]));
        i += 1;
    }
    assert(in_apps.take(i as int) =~= in_apps);
    if infra_synced {
        push_path(&mut paths, "infra/");
    }
    if config_synced {
        push_path(&mut paths, ".cargo/config.toml");
    }
    push_path(&mut paths, "Cargo.toml");
    push_path(&mut paths, "Cargo.lock");
    assert(text::views(paths@) =~= staged_paths(names, infra_synced, config_synced));
    paths
}

/// The command that puts paths into the commit.
pub fn stage_command(paths: &[String]) -> (r: Command)
    ensures
        r@ == stage(text::views(paths@)),
{
    let ghost all = text::views(paths@);
    let mut args: Vec<Arg> = Vec::new();
    push_text(&mut args, "add");
    let mut i: usize = 0;
    assert(arg_views(args@) =~= seq![ArgView::Text("add"@)] + texts(all.take(0)));
    while i < paths.len()
        invariant
            i <= paths.len(),
            all == text::views(paths@),
            arg_views(args@) == seq![ArgView::Text("add"@)] + texts(all.take(i as int)),
        decreases paths.len() - i,
    {
        let ghost before = arg_views(args@);
        push_text(&mut args, paths[i].as_str());
        assert(arg_views(args@) =~= seq![ArgView::Text("add"@)] + texts(all.take(i + 1)));
        i += 1;
    }
    assert(all.take(i as int) =~= all);
    Command {
        program: "git".to_owned(),
        args,
        dir: Place::Target,
        purpose: "git add".to_owned(),
    }
}

/// The command that commits.
pub fn commit_command() -> (r: Command)
    ensures
        r@ == commit(),
{
    let r = target_command("git", &["commit", "-m", "chore: sync fdk_apps"], "git commit");
    assert(r@.args =~= commit().args);
    r
}

/// The command that pushes the branch.
pub fn push_command(branch: &str) -> (r: Command)
    ensures
        r@ == push(branch@),
{
    let r = target_command("git", &["push", "-u", "origin", branch], "git push");
    assert(r@.args =~= push(branch@).args);
    r
}

/// The command that opens the pull request.
pub fn open_pr_command(base: &str) -> (r: Command)
    ensures
        r@ == open_pr(base@),
{
    let r = target_command(
        "gh",
        &[
            "pr",
            "create",
            "--base",
            base,
            "--title",
            "chore: sync fdk_apps",
            "--body",
            "Automated sync from fdk_apps workspace",
        ],
        "gh pr create",
    );
    assert(r@.args =~= open_pr(base@).args);
    r
}

} // verus!
