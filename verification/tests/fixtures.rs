use fslabscli::utils::test::{
    commit_all_changes, commit_repo, create_complex_workspace, create_rust_index, init_repo,
    initialize_workspace, modify_file, stage_all, stage_file, CommandLine, Step, FAKE_REGISTRY,
};

fn strings(words: &[&str]) -> Vec<String> {
    words.iter().map(|w| w.to_string()).collect()
}

fn command(step: &Step) -> CommandLine {
    match step {
        Step::Run(command) => command.clone(),
        _ => panic!("Expected a command"),
    }
}

#[test]
fn repository_is_initialized_without_signing() {
    let steps = init_repo();
    assert_eq!(steps.len(), 2);
    let init = command(&steps[0]);
    assert_eq!(init.program, "git");
    assert_eq!(init.args, strings(&["init"]));
    assert_eq!(init.not_started, "Failed to run git init");
    assert_eq!(init.failed, Some("git init failed".to_string()));
    assert!(init.dir.is_empty());
    assert_eq!(
        init.env,
        vec![
            ("GIT_AUTHOR_NAME".to_string(), "Test User".to_string()),
            ("GIT_AUTHOR_EMAIL".to_string(), "test@example.com".to_string()),
            ("GIT_COMMITTER_NAME".to_string(), "Test User".to_string()),
            (
                "GIT_COMMITTER_EMAIL".to_string(),
                "test@example.com".to_string()
            ),
        ]
    );
    assert_eq!(
        command(&steps[1]).args,
        strings(&["config", "commit.gpgsign", "false"])
    );
    assert_eq!(command(&steps[1]).not_started, "Failed to configure git");
    assert_eq!(command(&steps[1]).failed, Some(String::new()));
}

#[test]
fn all_changes_are_staged_then_committed() {
    assert_eq!(
        command(&stage_file("a/b")).args,
        strings(&["add", "a/b"])
    );
    assert_eq!(command(&stage_all()).args, strings(&["add", "-A"]));
    assert_eq!(
        command(&commit_repo("m")).args,
        strings(&["commit", "-m", "m", "--allow-empty"])
    );
    assert_eq!(
        commit_all_changes("m"),
        vec![stage_all(), commit_repo("m")]
    );
}

#[test]
fn file_is_written_after_its_directory() {
    assert_eq!(
        modify_file("a/b.txt", "x"),
        vec![
            Step::MakeParent(strings(&["a/b.txt"])),
            Step::Write(strings(&["a/b.txt"]), "x".to_string()),
        ]
    );
}

#[test]
fn plain_crate_is_four_steps() {
    let steps = initialize_workspace("w", &[], &[], false);
    assert_eq!(steps.len(), 4);
    assert_eq!(steps[0], Step::MakeDirs(strings(&["w"])));
    let cargo = command(&steps[1]);
    assert_eq!(cargo.program, "cargo");
    assert_eq!(
        cargo.args,
        strings(&["init", "--lib", "--name", "w", "--registry", FAKE_REGISTRY])
    );
    assert_eq!(cargo.dir, strings(&["w"]));
    assert_eq!(cargo.failed, None);
    assert_eq!(steps[2], Step::MakeDirs(strings(&[".cargo"])));
    assert_eq!(
        steps[3],
        Step::Write(
            strings(&[".cargo", "config.toml"]),
            "[registries.fake-registry]\nindex = \"ssh://git@ssh.shipyard.rs/fake-registry/crate-index.git\"\n"
                .to_string()
        )
    );
}

#[test]
fn full_workspace_appends_in_order() {
    let steps = initialize_workspace(
        "w",
        &strings(&["x", "y"]),
        &strings(&["r1", "r2"]),
        true,
    );
    assert_eq!(steps.len(), 11);
    let manifest = strings(&["w", "Cargo.toml"]);
    assert_eq!(
        steps[4],
        Step::Append(
            manifest.clone(),
            "\n[package.metadata.fslabs.publish.cargo]\npublish = true\n\n".to_string()
        )
    );
    assert_eq!(
        steps[5],
        Step::Append(
            manifest.clone(),
            "alternate_registries=[\"r1\", \"r2\"]\n".to_string()
        )
    );
    assert_eq!(
        steps[6],
        Step::Append(
            manifest,
            "\n[workspace]\nmembers = [\"crates/*\"]\nresolver = \"2\"\n".to_string()
        )
    );
    assert_eq!(steps[7], Step::MakeDirs(strings(&["w", "crates", "x"])));
    assert_eq!(command(&steps[8]).args[3], "w__x");
    assert_eq!(command(&steps[10]).args[3], "w__y");
    assert_eq!(command(&steps[10]).dir, strings(&["w", "crates", "y"]));
}

#[test]
fn complex_workspace_ends_with_a_commit() {
    let plain = create_complex_workspace(false);
    let other = create_complex_workspace(true);
    assert_eq!(other.len(), plain.len() + 1);
    assert_eq!(plain[0], init_repo()[0]);
    assert_eq!(plain[plain.len() - 1], commit_repo("Initial commit"));
    let add = command(&plain[plain.len() - 7]);
    assert_eq!(
        add.args,
        strings(&[
            "add",
            "--offline",
            "--registry",
            "fake-registry",
            "--path",
            "../../../workspace_a/crates/crates_a",
            "workspace_a__crates_a",
        ])
    );
    assert_eq!(add.dir, strings(&["workspace_d", "crates", "crates_e"]));
    assert_eq!(
        plain[plain.len() - 3],
        Step::Write(
            strings(&["rust-toolchain.toml"]),
            "[toolchain]\nprofile = \"default\"\n channel = \"1.88\"".to_string()
        )
    );
}

#[test]
fn index_holds_four_versions() {
    let steps = create_rust_index("abc");
    assert_eq!(steps.len(), 7);
    assert_eq!(
        steps[2],
        Step::Write(
            strings(&["config.json"]),
            "{\"dl\":\"https://example.com\"}".to_string()
        )
    );
    assert_eq!(steps[3], Step::MakeDirs(strings(&["cr/at"])));
    match &steps[4] {
        Step::Write(path, lines) => {
            assert_eq!(path, &strings(&["cr/at", "crate-test"]));
            let lines: Vec<&str> = lines.lines().collect();
            assert_eq!(lines.len(), 4);
            assert_eq!(
                lines[0],
                "{\"name\":\"crate-test\",\"vers\":\"0.1.0\",\"deps\":[],\"features\":{},\"cksum\":\"abc\",\"yanked\":false,\"links\":null}"
            );
            assert!(lines[3].contains("\"vers\":\"0.2.3\""));
            assert!(lines[3].contains("\"yanked\":true"));
        }
        _ => panic!("Expected the index file"),
    }
}
