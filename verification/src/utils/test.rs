//! Repositories and workspaces to test with, as the steps that make them.
use vstd::prelude::*;

use crate::text;

verus! {

/// The registry that the crates of a workspace are meant for.
pub const FAKE_REGISTRY: &'static str = "fake-registry";

/// A command to run.
#[derive(Debug, Clone, PartialEq, Eq)]
pub struct CommandLine {
    pub program: String,
    pub args: Vec<String>,
    /// The directory to run it in, below the base, component by component.
    pub dir: Vec<String>,
    /// Variables of its environment.
    pub env: Vec<(String, String)>,
    /// What to say where it cannot be started.
    pub not_started: String,
    /// What to say where it fails, be it nothing; without it, its outcome does not matter.
    pub failed: Option<String>,
}

/// A command as it is specified.
pub struct CommandLineView {
    pub program: Seq<char>,
    pub args: Seq<Seq<char>>,
    pub dir: Seq<Seq<char>>,
    pub env: Seq<(Seq<char>, Seq<char>)>,
    pub not_started: Seq<char>,
    pub failed: Option<Seq<char>>,
}

impl View for CommandLine {
    type V = CommandLineView;

    open spec fn view(&self) -> CommandLineView {
        CommandLineView {
            program: self.program@,
            args: text::views(self.args@),
            dir: text::views(self.dir@),
            env: self.env@.map_values(|pair: (String, String)| (pair.0@, pair.1@)),
            not_started: self.not_started@,
            failed: match self.failed {
                Some(s) => Some(s@),
                None => None,
            },
        }
    }
}

/// A step. Paths are below the base, component by component.
#[derive(Debug, Clone, PartialEq, Eq)]
pub enum Step {
    /// Create a directory and those above it.
    MakeDirs(Vec<String>),
    /// Create the directory that a file is to stand in, and those above it.
    MakeParent(Vec<String>),
    /// Write a file.
    Write(Vec<String>, String),
    /// Add to the end of a file.
    Append(Vec<String>, String),
    /// Run a command.
    Run(CommandLine),
}

/// A step as it is specified.
pub enum StepView {
    MakeDirs(Seq<Seq<char>>),
    MakeParent(Seq<Seq<char>>),
    Write(Seq<Seq<char>>, Seq<char>),
    Append(Seq<Seq<char>>, Seq<char>),
    Run(CommandLineView),
}

impl View for Step {
    type V = StepView;

    open spec fn view(&self) -> StepView {
        match *self {
            Step::MakeDirs(path) => StepView::MakeDirs(text::views(path@)),
            Step::MakeParent(path) => StepView::MakeParent(text::views(path@)),
            Step::Write(path, content) => StepView::Write(text::views(path@), content@),
            Step::Append(path, content) => StepView::Append(text::views(path@), content@),
            Step::Run(command) => StepView::Run(command@),
        }
    }
}

/// The steps of a list as they are specified.
pub open spec fn step_views(steps: Seq<Step>) -> Seq<StepView> {
    steps.map_values(|step: Step| step@)
}

/// The environment that makes a commit of the test user.
pub open spec fn test_user() -> Seq<(Seq<char>, Seq<char>)> {
    seq![
        ("GIT_AUTHOR_NAME"@, "Test User"@),
        ("GIT_AUTHOR_EMAIL"@, "test@example.com"@),
        ("GIT_COMMITTER_NAME"@, "Test User"@),
        ("GIT_COMMITTER_EMAIL"@, "test@example.com"@),
    ]
}

/// `git` with these arguments, as the test user, in the base. Its outcome matters.
pub open spec fn git_step(
    args: Seq<Seq<char>>,
    not_started: Seq<char>,
    failed: Seq<char>,
) -> StepView {
    StepView::Run(
        CommandLineView {
            program: "git"@,
            args,
            dir: Seq::empty(),
            env: test_user(),
            not_started,
            failed: Some(failed),
        },
    )
}

/// `cargo` with these arguments, in that directory. Its outcome does not matter.
pub open spec fn cargo_step(
    args: Seq<Seq<char>>,
    dir: Seq<Seq<char>>,
    not_started: Seq<char>,
) -> StepView {
    StepView::Run(
        CommandLineView {
            program: "cargo"@,
            args,
            dir,
            env: Seq::empty(),
            not_started,
            failed: None,
        },
    )
}

/// The strings of a list.
fn texts(words: &[&str]) -> (r: Vec<String>)
    ensures
        text::views(r@) == words@.map_values(|word: &str| word@),
{
    let ghost all = words@.map_values(|word: &str| word@);
    let mut list: Vec<String> = Vec::new();
    let mut i: usize = 0;
    assert(text::views(list@) =~= all.take(0));
    while i < words.len()
        invariant
            i <= words.len(),
            all == words@.map_values(|word: &str| word@),
            text::views(list@) == all.take(i as int),
        decreases words.len() - i,
    {
        let ghost before = list@;
        list.push(words[i].to_owned());
        assert(text::views(list@) =~= text::views(before).push(all[i as int]));
        assert(all.take(i + 1) =~= all.take(i as int).push(all[i as int]));
        i += 1;
    }
    assert(all.take(i as int) =~= all);
    list
}

/// Adds a step.
fn push_step(steps: &mut Vec<Step>, step: Step)
    ensures
        step_views(final(steps)@) == step_views(old(steps)@).push(step@),
{
    let ghost before = steps@;
    steps.push(step);
    assert(step_views(steps@) =~= step_views(before).push(step@));
}

/// Adds steps.
fn push_steps(steps: &mut Vec<Step>, more: Vec<Step>)
    ensures
        step_views(final(steps)@) == step_views(old(steps)@) + step_views(more@),
{
    let ghost before = steps@;
    let mut rest = more;
    steps.append(&mut rest);
    assert(step_views(steps@) =~= step_views(before) + step_views(more@));
}

/// No steps.
fn no_steps() -> (r: Vec<Step>)
    ensures
        step_views(r@) == Seq::<StepView>::empty(),
{
    let steps: Vec<Step> = Vec::new();
    assert(step_views(steps@) =~= Seq::empty());
    steps
}

/// One variable of an environment.
fn variable(name: &str, value: &str) -> (r: (String, String))
    ensures
        r.0@ == name@,
        r.1@ == value@,
{
    (name.to_owned(), value.to_owned())
}

/// `git` with these arguments, as the test user, in the base.
fn git(args: &[&str], not_started: &str, failed: &str) -> (r: Step)
    ensures
        r@ == git_step(args@.map_values(|word: &str| word@), not_started@, failed@),
{
    let mut env: Vec<(String, String)> = Vec::new();
    env.push(variable("GIT_AUTHOR_NAME", "Test User"));
    env.push(variable("GIT_AUTHOR_EMAIL", "test@example.com"));
    env.push(variable("GIT_COMMITTER_NAME", "Test User"));
    env.push(variable("GIT_COMMITTER_EMAIL", "test@example.com"));
    let command = CommandLine {
        program: "git".to_owned(),
        args: texts(args),
        dir: Vec::new(),
        env,
        not_started: not_started.to_owned(),
        failed: Some(failed.to_owned()),
    };
    assert(command@.env =~= test_user());
    assert(command@.dir =~= Seq::empty());
    Step::Run(command)
}

/// `cargo` with these arguments, in that directory.
fn cargo(args: &[&str], dir: &[&str], not_started: &str) -> (r: Step)
    ensures
        r@ == cargo_step(
            args@.map_values(|word: &str| word@),
            dir@.map_values(|word: &str| word@),
            not_started@,
        ),
{
    let command = CommandLine {
        program: "cargo".to_owned(),
        args: texts(args),
        dir: texts(dir),
        env: Vec::new(),
        not_started: not_started.to_owned(),
        failed: None,
    };
    assert(command@.env =~= Seq::empty());
    Step::Run(command)
}

/// The steps that make the base a repository whose commits are not signed.
pub open spec fn repo_steps() -> Seq<StepView> {
    seq![
        git_step(seq!["init"@], "Failed to run git init"@, "git init failed"@),
        git_step(
            seq!["config"@, "commit.gpgsign"@, "false"@],
            "Failed to configure git"@,
            ""@,
        ),
    ]
}

/// Makes the base a repository whose commits are not signed.
pub fn init_repo() -> (r: Vec<Step>)
    ensures
        step_views(r@) == repo_steps(),
{
    let mut steps = no_steps();
    let init = git(&["init"], "Failed to run git init", "git init failed");
    assert(init@->Run_0.args =~= seq!["init"@]);
    push_step(&mut steps, init);
    let config = git(
        &["config", "commit.gpgsign", "false"],
        "Failed to configure git",
        "",
    );
    assert(config@->Run_0.args =~= seq!["config"@, "commit.gpgsign"@, "false"@]);
    push_step(&mut steps, config);
    assert(step_views(steps@) =~= repo_steps());
    steps
}

/// The step that stages one file.
pub open spec fn file_staging(file_path: Seq<char>) -> StepView {
    git_step(seq!["add"@, file_path], "Failed to run git add"@, "git add failed"@)
}

/// The step that stages everything.
pub open spec fn full_staging() -> StepView {
    git_step(seq!["add"@, "-A"@], "Failed to run git add -A"@, "git add -A failed"@)
}

/// The step that commits what is staged, be it nothing.
pub open spec fn commit_step(message: Seq<char>) -> StepView {
    git_step(
        seq!["commit"@, "-m"@, message, "--allow-empty"@],
        "Failed to run git commit"@,
        "git commit failed"@,
    )
}

/// Stages one file.
pub fn stage_file(file_path: &str) -> (r: Step)
    ensures
        r@ == file_staging(file_path@),
{
    let step = git(&["add", file_path], "Failed to run git add", "git add failed");
    assert(step@->Run_0.args =~= seq!["add"@, file_path@]);
    step
}

/// Stages everything.
pub fn stage_all() -> (r: Step)
    ensures
        r@ == full_staging(),
{
    let step = git(&["add", "-A"], "Failed to run git add -A", "git add -A failed");
    assert(step@->Run_0.args =~= seq!["add"@, "-A"@]);
    step
}

/// Commits what is staged, be it nothing.
pub fn commit_repo(commit_message: &str) -> (r: Step)
    ensures
        r@ == commit_step(commit_message@),
{
    let step = git(
        &["commit", "-m", commit_message, "--allow-empty"],
        "Failed to run git commit",
        "git commit failed",
    );
    assert(step@->Run_0.args =~= seq!["commit"@, "-m"@, commit_message@, "--allow-empty"@]);
    step
}

/// Stages everything and commits it.
pub fn commit_all_changes(message: &str) -> (r: Vec<Step>)
    ensures
        step_views(r@) == seq![full_staging(), commit_step(message@)],
{
    let mut steps = no_steps();
    push_step(&mut steps, stage_all());
    push_step(&mut steps, commit_repo(message));
    assert(step_views(steps@) =~= seq![full_staging(), commit_step(message@)]);
    steps
}

/// The steps that give a file that content.
pub open spec fn file_steps(file_path: Seq<char>, content: Seq<char>) -> Seq<StepView> {
    seq![StepView::MakeParent(seq![file_path]), StepView::Write(seq![file_path], content)]
}

/// Gives a file that content, the directory that it stands in made first.
pub fn modify_file(file_path: &str, content: &str) -> (r: Vec<Step>)
    ensures
        step_views(r@) == file_steps(file_path@, content@),
{
    let mut steps = no_steps();
    push_step(&mut steps, Step::MakeParent(texts(&[file_path])));
    push_step(&mut steps, Step::Write(texts(&[file_path]), content.to_owned()));
    proof {
        let words: Seq<&str> = seq![file_path];
        assert([file_path]@ =~= words);
        assert(words.map_values(|word: &str| word@) =~= seq![file_path@]);
    }
    assert(step_views(steps@) =~= file_steps(file_path@, content@));
    steps
}

/// The step that makes a library crate in a directory.
pub open spec fn crate_step(name: Seq<char>, dir: Seq<Seq<char>>) -> StepView {
    cargo_step(
        seq!["init"@, "--lib"@, "--name"@, name, "--registry"@, FAKE_REGISTRY@],
        dir,
        "Failed to create simple crate"@,
    )
}

/// The Cargo configuration that names the registry.
pub open spec fn config_text() -> Seq<char> {
    "[registries."@ + FAKE_REGISTRY@ + "]\nindex = \"ssh://git@ssh.shipyard.rs/"@ + FAKE_REGISTRY@
        + "/crate-index.git\"\n"@
}

/// What makes a crate one that is published.
pub open spec fn publish_text() -> Seq<char> {
    "\n[package.metadata.fslabs.publish.cargo]\npublish = true\n\n"@
}

/// What names other registries for a crate.
pub open spec fn alternates_text(registries: Seq<Seq<char>>) -> Seq<char> {
    "alternate_registries=[\""@ + text::joined(registries, "\", \""@) + "\"]\n"@
}

/// What makes a crate the root of a workspace.
pub open spec fn members_text() -> Seq<char> {
    "\n[workspace]\nmembers = [\"crates/*\"]\nresolver = \"2\"\n"@
}

/// The steps that make the crates of a workspace.
pub open spec fn sub_crate_steps(workspace: Seq<char>, sub_crates: Seq<Seq<char>>) -> Seq<StepView>
    decreases sub_crates.len(),
{
    if sub_crates.len() == 0 {
        Seq::empty()
    } else {
        let name = sub_crates.last();
        let dir = seq![workspace, "crates"@, name];
        sub_crate_steps(workspace, sub_crates.drop_last()) + seq![
            StepView::MakeDirs(dir),
            crate_step(workspace + "__"@ + name, dir),
        ]
    }
}

/// The steps that make a workspace.
pub open spec fn workspace_steps(
    workspace: Seq<char>,
    sub_crates: Seq<Seq<char>>,
    alt_registries: Seq<Seq<char>>,
    cargo_publish: bool,
) -> Seq<StepView> {
    let manifest = seq![workspace, "Cargo.toml"@];
    seq![
        StepView::MakeDirs(seq![workspace]),
        crate_step(workspace, seq![workspace]),
        StepView::MakeDirs(seq![".cargo"@]),
        StepView::Write(seq![".cargo"@, "config.toml"@], config_text()),
    ] + (if cargo_publish {
        seq![StepView::Append(manifest, publish_text())]
    } else {
        Seq::empty()
    }) + (if alt_registries.len() > 0 {
        seq![StepView::Append(manifest, alternates_text(alt_registries))]
    } else {
        Seq::empty()
    }) + (if sub_crates.len() > 0 {
        seq![StepView::Append(manifest, members_text())] + sub_crate_steps(workspace, sub_crates)
    } else {
        Seq::empty()
    })
}

/// Two components of a path.
fn pair(first: &str, second: &str) -> (r: Vec<String>)
    ensures
        text::views(r@) == seq![first@, second@],
{
    let path = texts(&[first, second]);
    assert(text::views(path@) =~= seq![first@, second@]);
    path
}

/// Makes a library crate in a directory.
fn make_crate(name: &str, dir: &[&str]) -> (r: Step)
    ensures
        r@ == crate_step(name@, dir@.map_values(|word: &str| word@)),
{
    let step = cargo(
        &["init", "--lib", "--name", name, "--registry", FAKE_REGISTRY],
        dir,
        "Failed to create simple crate",
    );
    assert(step@->Run_0.args =~= seq![
        "init"@,
        "--lib"@,
        "--name"@,
        name@,
        "--registry"@,
        FAKE_REGISTRY@,
    ]);
    step
}

/// The crates of a workspace.
fn make_sub_crates(workspace_name: &str, sub_crates: &[String]) -> (r: Vec<Step>)
    ensures
        step_views(r@) == sub_crate_steps(workspace_name@, text::views(sub_crates@)),
{
    let ghost names = text::views(sub_crates@);
    let mut steps = no_steps();
    let mut i: usize = 0;
    while i < sub_crates.len()
        invariant
            i <= sub_crates.len(),
            names == text::views(sub_crates@),
            step_views(steps@) == sub_crate_steps(workspace_name@, names.take(i as int)),
        decreases sub_crates.len() - i,
    {
        let sub_crate = sub_crates[i].as_str();
        let dir = [workspace_name, "crates", sub_crate];
        let name = workspace_name.to_owned().concat("__").concat(sub_crate);
        proof {
            assert(names.take(i + 1).drop_last() =~= names.take(i as int));
            assert(dir@.map_values(|word: &str| word@) =~= seq![
                workspace_name@,
                "crates"@,
                names[i as int],
            ]);
        }
        push_step(&mut steps, Step::MakeDirs(texts(&dir)));
        push_step(&mut steps, make_crate(name.as_str(), &dir));
        assert(step_views(steps@) =~= sub_crate_steps(workspace_name@, names.take(i + 1)));
        i += 1;
    }
    assert(names.take(i as int) =~= names);
    steps
}

/// Makes a workspace: a crate, which may be published and name other registries, and the
/// crates under it.
pub fn initialize_workspace(
    workspace_name: &str,
    sub_crates: &[String],
    alt_registries: &[String],
    cargo_publish: bool,
) -> (r: Vec<Step>)
    ensures
        step_views(r@) == workspace_steps(
            workspace_name@,
            text::views(sub_crates@),
            text::views(alt_registries@),
            cargo_publish,
        ),
{
    let mut steps = no_steps();
    let dir = [workspace_name];
    assert(dir@.map_values(|word: &str| word@) =~= seq![workspace_name@]);
    push_step(&mut steps, Step::MakeDirs(texts(&dir)));
    push_step(&mut steps, make_crate(workspace_name, &dir));
    let config_dir = [".cargo"];
    assert(config_dir@.map_values(|word: &str| word@) =~= seq![".cargo"@]);
    push_step(&mut steps, Step::MakeDirs(texts(&config_dir)));
    let config = "[registries.".to_owned().concat(FAKE_REGISTRY).concat(
        "]\nindex = \"ssh://git@ssh.shipyard.rs/",
    ).concat(FAKE_REGISTRY).concat("/crate-index.git\"\n");
    push_step(&mut steps, Step::Write(pair(".cargo", "config.toml"), config));
    if cargo_publish {
        let content = "\n[package.metadata.fslabs.publish.cargo]\npublish = true\n\n".to_owned();
        push_step(&mut steps, Step::Append(pair(workspace_name, "Cargo.toml"), content));
    }
    if alt_registries.len() > 0 {
        let joined = text::join_texts(alt_registries, "\", \"");
        let content = "alternate_registries=[\"".to_owned().concat(joined.as_str()).concat("\"]\n");
        push_step(&mut steps, Step::Append(pair(workspace_name, "Cargo.toml"), content));
    }
    if sub_crates.len() > 0 {
        let content = "\n[workspace]\nmembers = [\"crates/*\"]\nresolver = \"2\"\n".to_owned();
        push_step(&mut steps, Step::Append(pair(workspace_name, "Cargo.toml"), content));
        push_steps(&mut steps, make_sub_crates(workspace_name, sub_crates));
    }
    assert(step_views(steps@) =~= workspace_steps(
        workspace_name@,
        text::views(sub_crates@),
        text::views(alt_registries@),
        cargo_publish,
    ));
    steps
}

/// The step that adds a dependency on a crate at a path.
pub open spec fn dependency_step(
    path: Seq<char>,
    name: Seq<char>,
    dir: Seq<Seq<char>>,
    not_started: Seq<char>,
) -> StepView {
    cargo_step(
        seq!["add"@, "--offline"@, "--registry"@, FAKE_REGISTRY@, "--path"@, path, name],
        dir,
        not_started,
    )
}

/// Adds a dependency on a crate at a path.
fn add_dependency(path: &str, name: &str, dir: &[&str], not_started: &str) -> (r: Step)
    ensures
        r@ == dependency_step(
            path@,
            name@,
            dir@.map_values(|word: &str| word@),
            not_started@,
        ),
{
    let step = cargo(
        &["add", "--offline", "--registry", FAKE_REGISTRY, "--path", path, name],
        dir,
        not_started,
    );
    assert(step@->Run_0.args =~= seq![
        "add"@,
        "--offline"@,
        "--registry"@,
        FAKE_REGISTRY@,
        "--path"@,
        path@,
        name@,
    ]);
    step
}

/// The steps that make a repository of two workspaces and a crate that depend on each other.
pub open spec fn complex_steps(alt_registry: bool) -> Seq<StepView> {
    repo_steps() + workspace_steps(
        "workspace_a"@,
        seq!["crates_a"@, "crates_b"@, "crates_c"@],
        Seq::empty(),
        false,
    ) + workspace_steps("workspace_d"@, seq!["crates_e"@, "crates_f"@], Seq::empty(), false)
        + workspace_steps(
        "crates_g"@,
        Seq::empty(),
        if alt_registry {
            seq!["some_other_registries"@]
        } else {
            Seq::empty()
        },
        true,
    ) + seq![
        dependency_step(
            "../../../workspace_a/crates/crates_a"@,
            "workspace_a__crates_a"@,
            seq!["workspace_d"@, "crates"@, "crates_e"@],
            "Failed to add workspace_a__crates_a to workspace_d__crates_e"@,
        ),
        dependency_step(
            "../workspace_d/crates/crates_e"@,
            "workspace_d__crates_e"@,
            seq!["crates_g"@],
            "Failed to add workspace_d__crates_e"@,
        ),
        dependency_step(
            "../workspace_a/crates/crates_b"@,
            "workspace_a__crates_b"@,
            seq!["crates_g"@],
            "Failed to add workspace_a__crates_b"@,
        ),
    ] + file_steps(
        "rust-toolchain.toml"@,
        "[toolchain]\nprofile = \"default\"\n channel = \"1.88\""@,
    ) + seq![full_staging(), commit_step("Initial commit"@)]
}

/// Makes a repository of two workspaces and a crate: a crate of the second workspace depends on
/// one of the first, and the lone crate on one of each.
pub fn create_complex_workspace(alt_registry: bool) -> (r: Vec<Step>)
    ensures
        step_views(r@) == complex_steps(alt_registry),
{
    let none: Vec<String> = Vec::new();
    assert(text::views(none@) =~= Seq::empty());
    let mut steps = init_repo();
    let first = texts(&["crates_a", "crates_b", "crates_c"]);
    assert(text::views(first@) =~= seq!["crates_a"@, "crates_b"@, "crates_c"@]);
    push_steps(
        &mut steps,
        initialize_workspace("workspace_a", first.as_slice(), none.as_slice(), false),
    );
    let second = texts(&["crates_e", "crates_f"]);
    assert(text::views(second@) =~= seq!["crates_e"@, "crates_f"@]);
    push_steps(
        &mut steps,
        initialize_workspace("workspace_d", second.as_slice(), none.as_slice(), false),
    );
    let alternates = if alt_registry {
        texts(&["some_other_registries"])
    } else {
        Vec::new()
    };
    assert(text::views(alternates@) =~= if alt_registry {
        seq!["some_other_registries"@]
    } else {
        Seq::empty()
    });
    push_steps(
        &mut steps,
        initialize_workspace("crates_g", none.as_slice(), alternates.as_slice(), true),
    );
    let inner = ["workspace_d", "crates", "crates_e"];
    assert(inner@.map_values(|word: &str| word@) =~= seq![
        "workspace_d"@,
        "crates"@,
        "crates_e"@,
    ]);
    let lone = ["crates_g"];
    assert(lone@.map_values(|word: &str| word@) =~= seq!["crates_g"@]);
    push_step(
        &mut steps,
        add_dependency(
            "../../../workspace_a/crates/crates_a",
            "workspace_a__crates_a",
            &inner,
            "Failed to add workspace_a__crates_a to workspace_d__crates_e",
        ),
    );
    push_step(
        &mut steps,
        add_dependency(
            "../workspace_d/crates/crates_e",
            "workspace_d__crates_e",
            &lone,
            "Failed to add workspace_d__crates_e",
        ),
    );
    push_step(
        &mut steps,
        add_dependency(
            "../workspace_a/crates/crates_b",
            "workspace_a__crates_b",
            &lone,
            "Failed to add workspace_a__crates_b",
        ),
    );
    push_steps(
        &mut steps,
        modify_file(
            "rust-toolchain.toml",
            "[toolchain]\nprofile = \"default\"\n channel = \"1.88\"",
        ),
    );
    push_steps(&mut steps, commit_all_changes("Initial commit"));
    assert(step_views(steps@) =~= complex_steps(alt_registry));
    steps
}

/// The line of an index for one version of the crate.
pub open spec fn index_line(version: Seq<char>, checksum: Seq<char>, yanked: bool) -> Seq<char> {
    "{\"name\":\"crate-test\",\"vers\":\""@ + version
        + "\",\"deps\":[],\"features\":{},\"cksum\":\""@ + checksum + "\",\"yanked\":"@ + (
    if yanked {
        "true"@
    } else {
        "false"@
    }) + ",\"links\":null}\n"@
}

/// The steps that make the index of a registry with one crate, its last version yanked.
pub open spec fn index_steps(checksum: Seq<char>) -> Seq<StepView> {
    repo_steps() + seq![
        StepView::Write(seq!["config.json"@], "{\"dl\":\"https://example.com\"}"@),
        StepView::MakeDirs(seq!["cr/at"@]),
        StepView::Write(
            seq!["cr/at"@, "crate-test"@],
            index_line("0.1.0"@, checksum, false) + index_line("0.2.0"@, checksum, false)
                + index_line("0.2.2"@, checksum, false) + index_line("0.2.3"@, checksum, true),
        ),
        full_staging(),
        commit_step("Initial commit"@),
    ]
}

/// The line of an index for one version of the crate.
fn index_line_text(version: &str, checksum: &str, yanked: bool) -> (r: String)
    ensures
        r@ == index_line(version@, checksum@, yanked),
{
    "{\"name\":\"crate-test\",\"vers\":\"".to_owned().concat(version).concat(
        "\",\"deps\":[],\"features\":{},\"cksum\":\"",
    ).concat(checksum).concat("\",\"yanked\":").concat(
        if yanked {
            "true"
        } else {
            "false"
        },
    ).concat(",\"links\":null}\n")
}

/// Makes the index of a registry with one crate, its last version yanked.
pub fn create_rust_index(checksum: &str) -> (r: Vec<Step>)
    ensures
        step_views(r@) == index_steps(checksum@),
{
    let mut steps = init_repo();
    let config = ["config.json"];
    assert(config@.map_values(|word: &str| word@) =~= seq!["config.json"@]);
    push_step(
        &mut steps,
        Step::Write(texts(&config), "{\"dl\":\"https://example.com\"}".to_owned()),
    );
    let dir = ["cr/at"];
    assert(dir@.map_values(|word: &str| word@) =~= seq!["cr/at"@]);
    push_step(&mut steps, Step::MakeDirs(texts(&dir)));
    let lines = index_line_text("0.1.0", checksum, false).concat(
        index_line_text("0.2.0", checksum, false).as_str(),
    ).concat(index_line_text("0.2.2", checksum, false).as_str()).concat(
        index_line_text("0.2.3", checksum, true).as_str(),
    );
    push_step(&mut steps, Step::Write(pair("cr/at", "crate-test"), lines));
    push_steps(&mut steps, commit_all_changes("Initial commit"));
    assert(step_views(steps@) =~= index_steps(checksum@));
    steps
}

} // verus!
