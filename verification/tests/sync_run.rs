use std::path::PathBuf;

use fslabscli::commands::sync_repos::discover::SourceEntry;
use fslabscli::commands::sync_repos::error::SyncError;
use fslabscli::commands::sync_repos::request::{Action, Arg, Command, Place, Reply, Root, WalkedEntry};
use fslabscli::commands::sync_repos::run::{sync_repos, SyncRun};
use fslabscli::commands::sync_repos::{Options, SyncReposResult};

const SOURCE_MANIFEST: &str = "[workspace]\nmembers = [\"app\"]\n\n[workspace.package]\nversion = \"2.0.0\"\n\n[workspace.dependencies]\napp = { path = \"app\" }\n";
const TARGET_MANIFEST: &str = "[workspace]\nmembers = [\"apps/app\"]\n\n[workspace.package]\nversion = \"1.0.0\"\n";

fn options(apps: &[&str]) -> Options {
    Options {
        source: PathBuf::from("src"),
        target: PathBuf::from("dst"),
        apps: apps.iter().map(|a| a.to_string()).collect(),
        dry_run: false,
        create_pr: false,
        branch_name: None,
        base_branch: "main".to_string(),
    }
}

fn ran(stdout: &str) -> Reply {
    Reply::Ran {
        success: true,
        stdout: stdout.to_string(),
        stderr: String::new(),
    }
}

fn content(text: &str) -> Reply {
    Reply::Content {
        path: "/there".to_string(),
        content: text.to_string(),
    }
}

/// A world in which everything is there: two entries in the source, one Rust source per
/// application, every command succeeds.
fn answer(action: &Action) -> Reply {
    match action {
        Action::ListSource => Reply::Entries(vec![
            SourceEntry {
                name: Some("zeta".to_string()),
                is_dir: true,
                has_manifest: true,
            },
            SourceEntry {
                name: Some("alpha".to_string()),
                is_dir: true,
                has_manifest: true,
            },
            SourceEntry {
                name: Some("docs".to_string()),
                is_dir: true,
                has_manifest: false,
            },
        ]),
        Action::Exists(_) => Reply::Answer(true),
        Action::Read(Place::SourceManifest) => content(SOURCE_MANIFEST),
        Action::Read(Place::TargetManifest) => content(TARGET_MANIFEST),
        Action::Read(Place::TargetConfig) => content(""),
        Action::Read(Place::TargetAppManifest(_)) => content(
            "[dependencies]\napp = { path = \"x\", registry = \"fsl\" }\n",
        ),
        Action::Read(_) => content("include!(\"../../a\");"),
        Action::Walk(_) => Reply::Walked(vec![
            WalkedEntry {
                name: "app".to_string(),
                components: 0,
            },
            WalkedEntry {
                name: "src".to_string(),
                components: 1,
            },
            WalkedEntry {
                name: "main.rs".to_string(),
                components: 2,
            },
            WalkedEntry {
                name: "deep.rs".to_string(),
                components: 3,
            },
            WalkedEntry {
                name: ".rs".to_string(),
                components: 2,
            },
        ]),
        Action::Run(command) if command.program == "gh" => {
            ran("https://github.com/o/r/pull/1\n")
        }
        Action::Run(_) => ran(""),
        _ => Reply::Done,
    }
}

/// The actions of a run in that world, and the run at its end.
fn drive(start: SyncRun) -> (Vec<Action>, SyncRun) {
    let mut run = start;
    let mut actions = vec![];
    loop {
        let action = run.request();
        if action == Action::Finish {
            return (actions, run);
        }
        let reply = answer(&action);
        actions.push(action);
        run = run.reply(reply).unwrap();
    }
}

fn app() -> String {
    "app".to_string()
}

fn words(command: &Command) -> Vec<String> {
    command
        .args
        .iter()
        .map(|arg| match arg {
            Arg::Text(word) => word.clone(),
            Arg::Dir(place) => format!("{place:?}/"),
            Arg::File(place) => format!("{place:?}"),
        })
        .collect()
}

#[test]
fn full_sync_without_pull_request() {
    let (actions, run) = drive(sync_repos(&options(&["app"])));
    let shapes: Vec<Action> = actions
        .iter()
        .filter(|a| !matches!(a, Action::Run(_) | Action::Write(_, _)))
        .cloned()
        .collect();
    assert_eq!(
        shapes,
        vec![
            Action::Exists(Place::TargetApp(app())),
            Action::RemoveTree(Place::TargetApp(app())),
            Action::MakeDirs(Place::TargetApp(app())),
            Action::Exists(Place::SourceInfra),
            Action::Exists(Place::SourceConfig),
            Action::MakeDirs(Place::TargetConfigDir),
            Action::Read(Place::TargetConfig),
            Action::Read(Place::SourceManifest),
            Action::Read(Place::TargetManifest),
            Action::Exists(Place::TargetAppManifest(app())),
            Action::Read(Place::TargetAppManifest(app())),
            Action::Walk(Place::TargetApp(app())),
            Action::Read(Place::TargetAppFile(app(), 2)),
            Action::Read(Place::TargetAppFile(app(), 3)),
            Action::Exists(Place::TargetLock),
            Action::RemoveFile(Place::TargetLock),
        ]
    );
    let written: Vec<(Place, String)> = actions
        .iter()
        .filter_map(|a| match a {
            Action::Write(place, content) => Some((place.clone(), content.clone())),
            _ => None,
        })
        .collect();
    assert_eq!(written.len(), 4);
    assert_eq!(written[0].0, Place::TargetConfig);
    assert!(written[0]
        .1
        .contains("sparse+https://crates.fsl.dev/api/v1/crates/"));
    assert_eq!(written[1].0, Place::TargetManifest);
    assert!(written[1].1.contains("version = \"2.0.0\""));
    assert!(written[1].1.contains("path = \"apps/app\""));
    assert_eq!(written[2].0, Place::TargetAppManifest(app()));
    assert!(written[2].1.contains("path = \"../app\""));
    assert!(!written[2].1.contains("registry"));
    assert_eq!(
        written[3],
        (
            Place::TargetAppFile(app(), 2),
            "include!(\"../../../a\");".to_string()
        )
    );
    assert_eq!(
        run.transformed_places(),
        vec![
            Place::TargetManifest,
            Place::TargetAppManifest(app()),
            Place::TargetAppFile(app(), 2),
            Place::TargetLock,
        ]
    );
    let result = run.finish(vec!["Cargo.toml".to_string()]);
    assert_eq!(
        result,
        SyncReposResult {
            synced_apps: vec![app()],
            transformed_files: vec!["Cargo.toml".to_string()],
            dry_run: false,
            pr_url: None,
        }
    );
}

#[test]
fn commands_of_a_full_sync() {
    let mut with_pr = options(&["app"]);
    with_pr.create_pr = true;
    with_pr.base_branch = "develop".to_string();
    let (actions, run) = drive(sync_repos(&with_pr));
    let commands: Vec<Command> = actions
        .into_iter()
        .filter_map(|a| match a {
            Action::Run(command) => Some(command),
            _ => None,
        })
        .collect();
    let programs: Vec<&str> = commands.iter().map(|c| c.program.as_str()).collect();
    assert_eq!(
        programs,
        vec!["rsync", "rsync", "rsync", "cargo", "git", "git", "git", "git", "gh"]
    );
    assert_eq!(
        words(&commands[0]),
        vec![
            "-a",
            "--delete",
            "--exclude=dist",
            "--exclude=target",
            "--exclude=node_modules",
            "SourceApp(\"app\")/",
            "TargetApp(\"app\")/",
        ]
    );
    assert_eq!(commands[0].dir, Place::Source);
    assert_eq!(commands[0].purpose, "rsync for app 'app'");
    assert_eq!(
        words(&commands[1]),
        vec![
            "-a",
            "--delete",
            "--exclude=.terraform",
            "--exclude=*.tfstate*",
            "--exclude=terraform.tfvars",
            "SourceInfra/",
            "TargetInfra/",
        ]
    );
    assert_eq!(commands[1].purpose, "rsync for infra");
    assert_eq!(words(&commands[2]), vec!["-a", "SourceConfig", "TargetConfig"]);
    assert_eq!(commands[2].purpose, "rsync for .cargo/config.toml");
    assert_eq!(words(&commands[3]), vec!["generate-lockfile"]);
    assert_eq!(commands[3].dir, Place::Target);
    let branch = "chore/sync-fdk-apps-2.0.0";
    assert_eq!(words(&commands[4]), vec!["checkout", "-b", branch]);
    assert_eq!(
        words(&commands[5]),
        vec![
            "add",
            "apps/app",
            "infra/",
            ".cargo/config.toml",
            "Cargo.toml",
            "Cargo.lock",
        ]
    );
    assert_eq!(
        words(&commands[6]),
        vec!["commit", "-m", "chore: sync fdk_apps"]
    );
    assert_eq!(words(&commands[7]), vec!["push", "-u", "origin", branch]);
    assert_eq!(
        words(&commands[8]),
        vec![
            "pr",
            "create",
            "--base",
            "develop",
            "--title",
            "chore: sync fdk_apps",
            "--body",
            "Automated sync from fdk_apps workspace",
        ]
    );
    let result = run.finish(vec![]);
    assert_eq!(
        result.pr_url,
        Some("https://github.com/o/r/pull/1".to_string())
    );
    assert_eq!(
        result.to_string(),
        "Synced 1 app(s) — PR: https://github.com/o/r/pull/1"
    );
    assert_eq!(
        result.pretty_print(),
        "Synced 1 app(s):\n  - app\n\nPR: https://github.com/o/r/pull/1\n"
    );
}

#[test]
fn dry_run_only_rehearses() {
    let mut dry = options(&["app"]);
    dry.dry_run = true;
    dry.create_pr = true;
    let (actions, run) = drive(sync_repos(&dry));
    for action in &actions {
        match action {
            Action::Exists(_) | Action::Read(_) | Action::Walk(_) => {}
            Action::Run(command) => {
                assert_eq!(command.program, "rsync");
                assert!(command.args.contains(&Arg::Text("--dry-run".to_string())));
            }
            _ => panic!("A dry run asked for {action:?}"),
        }
    }
    assert_eq!(run.transformed_places().len(), 4);
    let result = run.finish(vec![]);
    assert!(result.dry_run);
    assert_eq!(result.pr_url, None);
    assert_eq!(result.to_string(), "Synced 1 app(s)");
}

#[test]
fn apps_are_found_in_the_source() {
    let run = sync_repos(&options(&[]));
    assert_eq!(run.request(), Action::ListSource);
    let (actions, run) = drive(run);
    assert_eq!(
        actions[1],
        Action::Exists(Place::TargetApp("alpha".to_string()))
    );
    assert_eq!(run.transformed_places()[0], Place::TargetManifest);
    let result = run.finish(vec!["a".to_string(), "b".to_string()]);
    assert_eq!(result.synced_apps, vec!["alpha", "zeta"]);
    assert_eq!(
        result.pretty_print(),
        "Synced 2 app(s):\n  - alpha\n  - zeta\n\nTransformed files:\n  - a\n  - b\n"
    );
}

#[test]
fn named_branch_needs_no_version() {
    let mut named = options(&["app"]);
    named.create_pr = true;
    named.branch_name = Some("sync".to_string());
    let (actions, _) = drive(sync_repos(&named));
    let reads = actions
        .iter()
        .filter(|a| **a == Action::Read(Place::SourceManifest))
        .count();
    assert_eq!(reads, 1);
    let checkout = actions.iter().find_map(|a| match a {
        Action::Run(command) if command.program == "git" => Some(words(command)),
        _ => None,
    });
    assert_eq!(
        checkout,
        Some(vec![
            "checkout".to_string(),
            "-b".to_string(),
            "sync".to_string()
        ])
    );
}

/// The run after everything that stands before an action of that shape.
fn reach(options: &Options, wanted: fn(&Action) -> bool) -> SyncRun {
    let mut run = sync_repos(options);
    loop {
        let action = run.request();
        assert!(action != Action::Finish);
        if wanted(&action) {
            return run;
        }
        run = run.reply(answer(&action)).unwrap();
    }
}

fn failed() -> Reply {
    Reply::Ran {
        success: false,
        stdout: String::new(),
        stderr: "boom".to_string(),
    }
}

fn runs(action: &Action, program: &str, word: &str) -> bool {
    match action {
        Action::Run(command) => {
            command.program == program && command.args.contains(&Arg::Text(word.to_string()))
        }
        _ => false,
    }
}

#[test]
fn failed_commands_stop_with_their_words() {
    let mut with_pr = options(&["app"]);
    with_pr.create_pr = true;
    let cases: Vec<(fn(&Action) -> bool, &str)> = vec![
        (
            |a| runs(a, "rsync", "--exclude=dist"),
            "rsync failed for app 'app': boom",
        ),
        (
            |a| runs(a, "rsync", "--exclude=.terraform"),
            "rsync failed for infra: boom",
        ),
        (
            |a| runs(a, "rsync", "-a") && !runs(a, "rsync", "--delete"),
            "rsync failed for .cargo/config.toml: boom",
        ),
        (
            |a| runs(a, "cargo", "generate-lockfile"),
            "cargo generate-lockfile failed: boom",
        ),
        (
            |a| runs(a, "git", "checkout"),
            "git checkout -b failed: boom",
        ),
        (|a| runs(a, "git", "add"), "git add failed: boom"),
        (|a| runs(a, "git", "commit"), "git commit failed: boom"),
        (|a| runs(a, "git", "push"), "git push failed: boom"),
        (|a| runs(a, "gh", "create"), "gh pr create failed: boom"),
    ];
    for (wanted, message) in cases {
        let error = reach(&with_pr, wanted).reply(failed()).unwrap_err();
        assert_eq!(error.to_string(), message);
    }
}

#[test]
fn missing_parts_are_skipped() {
    let mut with_pr = options(&["app"]);
    with_pr.create_pr = true;
    let mut run = sync_repos(&with_pr);
    let mut staged = vec![];
    loop {
        let action = run.request();
        let reply = match &action {
            Action::Finish => break,
            Action::Exists(_) => Reply::Answer(false),
            other => answer(other),
        };
        if runs(&action, "git", "add") {
            if let Action::Run(command) = &action {
                staged = words(command);
            }
        }
        assert!(!matches!(
            action,
            Action::RemoveTree(_) | Action::RemoveFile(_)
        ));
        run = run.reply(reply).unwrap();
    }
    assert_eq!(staged, vec!["add", "apps/app", "Cargo.toml", "Cargo.lock"]);
    assert_eq!(
        run.transformed_places(),
        vec![
            Place::TargetManifest,
            Place::TargetAppFile(app(), 2),
            Place::TargetLock,
        ]
    );
}

#[test]
fn bad_documents_stop_the_sync() {
    let plain = options(&["app"]);
    let bad = || content("= 1");
    let error = reach(&plain, |a| *a == Action::Read(Place::TargetConfig))
        .reply(bad())
        .unwrap_err();
    assert_eq!(error.to_string(), "Failed to parse Cargo config TOML");
    let error = reach(&plain, |a| *a == Action::Read(Place::TargetConfig))
        .reply(content("registries = 1"))
        .unwrap_err();
    assert_eq!(error, SyncError::RegistriesNotTable);
    let error = reach(&plain, |a| *a == Action::Read(Place::TargetManifest))
        .reply(bad())
        .unwrap_err();
    assert_eq!(error.to_string(), "Failed to parse destination Cargo.toml");
    let mut dry = options(&["app"]);
    dry.dry_run = true;
    let error = reach(&dry, |a| matches!(a, Action::Read(Place::TargetAppManifest(_))))
        .reply(bad())
        .unwrap_err();
    assert_eq!(
        error.to_string(),
        "Failed to parse TOML for strip_path_from_deps"
    );
}

#[test]
fn wrong_replies_are_refused() {
    let run = sync_repos(&options(&["app"]));
    assert_eq!(
        run.reply(Reply::Done).unwrap_err(),
        SyncError::UnexpectedReply
    );
    let run = sync_repos(&options(&["app"]));
    assert_eq!(
        run.reply(ran("")).unwrap_err().to_string(),
        "The reply does not answer the request"
    );
    let (_, run) = drive(sync_repos(&options(&["app"])));
    assert_eq!(
        run.reply(Reply::Done).unwrap_err(),
        SyncError::UnexpectedReply
    );
}

/// The part of a sync that an action belongs to.
fn part(action: &Action) -> u32 {
    match action {
        Action::ListSource => 0,
        Action::Exists(Place::TargetApp(_)) | Action::RemoveTree(_) => 1,
        Action::MakeDirs(Place::TargetApp(_)) => 2,
        Action::Exists(Place::SourceInfra) => 3,
        Action::Exists(Place::SourceConfig)
        | Action::MakeDirs(_)
        | Action::Read(Place::TargetConfig)
        | Action::Write(Place::TargetConfig, _) => 4,
        Action::Read(Place::SourceManifest)
        | Action::Read(Place::TargetManifest)
        | Action::Write(Place::TargetManifest, _) => 5,
        Action::Exists(Place::TargetAppManifest(_))
        | Action::Read(Place::TargetAppManifest(_))
        | Action::Write(Place::TargetAppManifest(_), _) => 6,
        Action::Walk(_) | Action::Read(_) | Action::Write(_, _) => 7,
        Action::Exists(_) | Action::RemoveFile(_) => 8,
        Action::Run(command) => {
            if command.program == "cargo" {
                8
            } else if command.program != "rsync" {
                9
            } else if runs(action, "rsync", "--exclude=dist") {
                2
            } else if runs(action, "rsync", "--delete") {
                3
            } else {
                4
            }
        }
        Action::Finish => 10,
    }
}

#[test]
fn parts_of_a_sync_come_in_order() {
    let mut with_pr = options(&["one", "two", "three"]);
    with_pr.create_pr = true;
    with_pr.branch_name = Some("b".to_string());
    let (actions, run) = drive(sync_repos(&with_pr));
    let parts: Vec<u32> = actions.iter().map(part).collect();
    let mut sorted = parts.clone();
    sorted.sort();
    assert_eq!(parts, sorted);
    assert_eq!(run.request(), Action::Finish);
    assert!(run.finish(vec![]).pr_url.is_some());
}

#[test]
fn unreadable_version_names_its_path() {
    let mut with_pr = options(&["app"]);
    with_pr.create_pr = true;
    let mut run = reach(&with_pr, |a| runs(a, "cargo", "generate-lockfile"));
    run = run.reply(ran("")).unwrap();
    assert_eq!(run.request(), Action::Read(Place::SourceManifest));
    let error = run.reply(content("= 1")).unwrap_err();
    assert_eq!(error.to_string(), "Failed to parse /there");
}

#[test]
fn failed_actions_stop_with_their_path() {
    let mut with_pr = options(&["app"]);
    with_pr.create_pr = true;
    let cases: Vec<(fn(&Action) -> bool, &str)> = vec![
        (
            |a| matches!(a, Action::RemoveTree(_)),
            "Failed to remove directory: /p",
        ),
        (
            |a| matches!(a, Action::MakeDirs(Place::TargetApp(_))),
            "Failed to create directory: /p",
        ),
        (
            |a| matches!(a, Action::MakeDirs(Place::TargetConfigDir)),
            "Failed to create .cargo directory in target",
        ),
        (
            |a| *a == Action::Read(Place::TargetConfig),
            "Failed to read /p",
        ),
        (
            |a| *a == Action::Read(Place::SourceManifest),
            "Failed to read source Cargo.toml: /p",
        ),
        (
            |a| *a == Action::Read(Place::TargetManifest),
            "Failed to read target Cargo.toml: /p",
        ),
        (
            |a| matches!(a, Action::Read(Place::TargetAppManifest(_))),
            "Failed to read /p",
        ),
        (
            |a| matches!(a, Action::Read(Place::TargetAppFile(_, _))),
            "Failed to read /p",
        ),
        (
            |a| matches!(a, Action::Write(Place::TargetManifest, _)),
            "Failed to write Cargo.toml: /p",
        ),
        (
            |a| matches!(a, Action::Write(Place::TargetAppFile(_, _), _)),
            "Failed to write /p",
        ),
        (
            |a| matches!(a, Action::RemoveFile(_)),
            "Failed to delete /p",
        ),
        (
            |a| runs(a, "rsync", "--exclude=dist"),
            "Failed to spawn rsync for app 'app'",
        ),
        (|a| runs(a, "git", "add"), "Failed to spawn git add"),
        (|a| runs(a, "gh", "create"), "Failed to spawn gh pr create"),
    ];
    let undone = || Reply::Failed {
        path: "/p".to_string(),
        message: "no".to_string(),
    };
    for (wanted, text) in cases {
        let error = reach(&with_pr, wanted).reply(undone()).unwrap_err();
        assert_eq!(
            error,
            SyncError::ActionFailed {
                context: text.to_string(),
                message: "no".to_string(),
            }
        );
        assert_eq!(error.to_string(), text);
    }
    let error = sync_repos(&options(&[])).reply(undone()).unwrap_err();
    assert_eq!(error.to_string(), "Failed to read source directory: /p");
    let version = reach(&with_pr, |a| runs(a, "cargo", "generate-lockfile"))
        .reply(ran(""))
        .unwrap();
    assert_eq!(
        version.reply(undone()).unwrap_err().to_string(),
        "Failed to read /p"
    );
    let look = sync_repos(&options(&["app"]));
    assert_eq!(look.reply(undone()).unwrap_err(), SyncError::UnexpectedReply);
}

#[test]
fn places_have_their_paths() {
    let walked = vec!["src".to_string(), "main.rs".to_string()];
    let cases = vec![
        (Place::Source, Root::Source, ""),
        (Place::SourceApp(app()), Root::Source, "app"),
        (Place::SourceInfra, Root::Source, "infra"),
        (Place::SourceConfig, Root::Source, ".cargo/config.toml"),
        (Place::SourceManifest, Root::Source, "Cargo.toml"),
        (Place::Target, Root::Target, ""),
        (Place::TargetApp(app()), Root::Target, "apps/app"),
        (
            Place::TargetAppManifest(app()),
            Root::Target,
            "apps/app/Cargo.toml",
        ),
        (
            Place::TargetAppFile(app(), 2),
            Root::Target,
            "apps/app/src/main.rs",
        ),
        (Place::TargetInfra, Root::Target, "infra"),
        (Place::TargetConfigDir, Root::Target, ".cargo"),
        (Place::TargetConfig, Root::Target, ".cargo/config.toml"),
        (Place::TargetManifest, Root::Target, "Cargo.toml"),
        (Place::TargetLock, Root::Target, "Cargo.lock"),
    ];
    for (place, root, path) in cases {
        assert_eq!(place.root(), root);
        assert_eq!(place.path_below(&walked).join("/"), path);
    }
}
