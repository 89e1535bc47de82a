use fslabscli::cli_args::{DiffOptions, DiffStrategy};

fn signature() -> gix::actor::SignatureRef<'static> {
    gix::actor::SignatureRef {
        name: "Test User".into(),
        email: "test@example.com".into(),
        time: "1700000000 +0000",
    }
}

fn commit_file(
    repo: &gix::Repository,
    reference: &str,
    name: &str,
    content: &str,
    message: &str,
    parents: Vec<gix::ObjectId>,
) -> gix::ObjectId {
    let blob = repo.write_blob(content).unwrap().detach();
    let tree = gix::objs::Tree {
        entries: vec![gix::objs::tree::Entry {
            mode: gix::objs::tree::EntryKind::Blob.into(),
            filename: name.into(),
            oid: blob,
        }],
    };
    let tree_id = repo.write_object(&tree).unwrap().detach();
    repo.commit_as(signature(), signature(), reference, message, tree_id, parents)
        .unwrap()
        .detach()
}

/// A repository with two commits, and the ids of both.
fn setup_test_repo() -> (assert_fs::TempDir, gix::Repository, String, String) {
    let dir = assert_fs::TempDir::new().unwrap();
    let repo = gix::init(dir.path()).unwrap();
    let first = commit_file(&repo, "HEAD", "file1.txt", "content1", "First commit", vec![]);
    let second = commit_file(&repo, "HEAD", "file2.txt", "content2", "Second commit", vec![first]);
    (dir, repo, first.to_string(), second.to_string())
}

fn resolve(repo: &gix::Repository, revision: &str) -> Result<String, String> {
    match repo.rev_parse_single(revision) {
        Ok(id) => Ok(id.detach().to_string()),
        Err(error) => Err(error.to_string()),
    }
}

fn commits(strategy: &DiffStrategy, repo: &gix::Repository) -> Result<(String, String), String> {
    strategy.git_commits(
        resolve(repo, &strategy.head_revision()),
        resolve(repo, &strategy.base_revision()),
    )
}

#[test]
fn test_diff_strategy_local_changes() {
    let (_dir, repo, first_sha, second_sha) = setup_test_repo();
    let strategy = DiffStrategy::LocalChanges;
    let (base, head) = commits(&strategy, &repo).unwrap();
    assert_eq!(base, first_sha);
    assert_eq!(head, second_sha);
}

#[test]
fn test_diff_strategy_local_changes_single_commit() {
    let dir = assert_fs::TempDir::new().unwrap();
    let repo = gix::init(dir.path()).unwrap();
    let commit_sha =
        commit_file(&repo, "HEAD", "file1.txt", "content1", "Initial commit", vec![]).to_string();
    let strategy = DiffStrategy::LocalChanges;
    let (base, head) = commits(&strategy, &repo).unwrap();
    assert_eq!(base, commit_sha);
    assert_eq!(head, commit_sha);
}

#[test]
fn test_diff_strategy_explicit() {
    let (_dir, repo, first_sha, second_sha) = setup_test_repo();
    let strategy = DiffStrategy::Explicit {
        base: first_sha.clone(),
        head: second_sha.clone(),
    };
    let (base, head) = commits(&strategy, &repo).unwrap();
    assert_eq!(base, first_sha);
    assert_eq!(head, second_sha);
}

#[test]
fn test_diff_strategy_explicit_short_sha() {
    let (_dir, repo, first_sha, second_sha) = setup_test_repo();
    let strategy = DiffStrategy::Explicit {
        base: first_sha[..7].to_string(),
        head: second_sha[..7].to_string(),
    };
    let (base, head) = commits(&strategy, &repo).unwrap();
    assert_eq!(base, first_sha);
    assert_eq!(head, second_sha);
}

#[test]
fn test_diff_strategy_worktree_vs_branch() {
    let (_dir, repo, first_sha, second_sha) = setup_test_repo();
    let branch = "refs/heads/test-branch";
    let tip = commit_file(&repo, branch, "file1.txt", "content1", "First commit", vec![]);
    assert_eq!(tip.to_string(), first_sha);
    let strategy = DiffStrategy::WorktreeVsBranch {
        branch: "test-branch".to_string(),
    };
    let (base, head) = commits(&strategy, &repo).unwrap();
    assert_eq!(base, first_sha);
    assert_eq!(head, second_sha);
}

#[test]
fn test_diff_strategy_explicit_invalid_sha() {
    let (_dir, repo, _first_sha, _second_sha) = setup_test_repo();
    let strategy = DiffStrategy::Explicit {
        base: "invalid".to_string(),
        head: "also-invalid".to_string(),
    };
    let result = commits(&strategy, &repo);
    assert!(result.is_err());
}

#[test]
fn test_diff_strategy_worktree_vs_branch_invalid() {
    let (_dir, repo, _first_sha, _second_sha) = setup_test_repo();
    let strategy = DiffStrategy::WorktreeVsBranch {
        branch: "nonexistent-branch".to_string(),
    };
    let result = commits(&strategy, &repo);
    assert!(result.is_err());
}

#[test]
fn head_error_comes_before_base_error() {
    let strategy = DiffStrategy::Explicit {
        base: "b".to_string(),
        head: "h".to_string(),
    };
    let result = strategy.git_commits(Err("no head"), Err("no base"));
    assert_eq!(result, Err("no head"));
    let result = strategy.git_commits(Ok("1".to_string()), Err("no base"));
    assert_eq!(result, Err("no base"));
}

#[test]
fn full_run_falls_back_to_head() {
    let strategy = DiffStrategy::All;
    assert_eq!(strategy.head_revision(), "HEAD");
    assert_eq!(strategy.base_revision(), "HEAD~");
    let result = strategy.git_commits(Ok("1".to_string()), Err("no parent"));
    assert_eq!(result, Ok(("1".to_string(), "1".to_string())));
    let result = strategy.git_commits(Err("no head"), Ok("2".to_string()));
    assert_eq!(result, Err("no head"));
}

#[test]
fn test_display_local_changes() {
    let strategy = DiffStrategy::LocalChanges;
    assert_eq!(strategy.to_string(), "local-changes");
}

#[test]
fn test_display_worktree_vs_branch() {
    let strategy = DiffStrategy::WorktreeVsBranch {
        branch: "main".to_string(),
    };
    assert_eq!(strategy.to_string(), "branch:main");
}

#[test]
fn test_display_explicit() {
    let strategy = DiffStrategy::Explicit {
        base: "abc123".to_string(),
        head: "def456".to_string(),
    };
    assert_eq!(strategy.to_string(), "abc123..def456");
}

#[test]
fn display_of_full_run() {
    assert_eq!(DiffStrategy::All.to_string(), "all");
}

#[test]
fn test_diff_options_strategy_explicit() {
    let options = DiffOptions {
        base_sha: Some("base123".to_string()),
        head_sha: Some("head456".to_string()),
        compare_branch: None,
        strategy: None,
    };
    let strategy = options.strategy();
    match strategy {
        DiffStrategy::Explicit { base, head } => {
            assert_eq!(base, "base123");
            assert_eq!(head, "head456");
        }
        _ => panic!("Expected Explicit strategy"),
    }
}

#[test]
fn test_diff_options_strategy_worktree_vs_branch() {
    let options = DiffOptions {
        base_sha: None,
        head_sha: None,
        compare_branch: Some("develop".to_string()),
        strategy: None,
    };
    let strategy = options.strategy();
    match strategy {
        DiffStrategy::WorktreeVsBranch { branch } => {
            assert_eq!(branch, "develop");
        }
        _ => panic!("Expected WorktreeVsBranch strategy"),
    }
}

#[test]
fn test_diff_options_strategy_local_changes_default() {
    let options = DiffOptions {
        base_sha: None,
        head_sha: None,
        compare_branch: None,
        strategy: None,
    };
    let strategy = options.strategy();
    assert!(matches!(strategy, DiffStrategy::LocalChanges));
}

#[test]
fn test_diff_options_explicit_strategy_override() {
    let options = DiffOptions {
        base_sha: Some("base123".to_string()),
        head_sha: Some("head456".to_string()),
        compare_branch: Some("develop".to_string()),
        strategy: Some(DiffStrategy::LocalChanges),
    };
    let strategy = options.strategy();
    assert!(matches!(strategy, DiffStrategy::LocalChanges));
}

#[test]
fn test_diff_options_explicit_sha_priority_over_branch() {
    let options = DiffOptions {
        base_sha: Some("base123".to_string()),
        head_sha: Some("head456".to_string()),
        compare_branch: Some("develop".to_string()),
        strategy: None,
    };
    let strategy = options.strategy();
    assert!(matches!(strategy, DiffStrategy::Explicit { .. }));
}

#[test]
fn test_diff_options_partial_sha_ignored() {
    let options = DiffOptions {
        base_sha: Some("base123".to_string()),
        head_sha: None,
        compare_branch: None,
        strategy: None,
    };
    let strategy = options.strategy();
    assert!(matches!(strategy, DiffStrategy::LocalChanges));
}

#[test]
fn lone_sha_hides_the_branch() {
    let options = DiffOptions {
        base_sha: None,
        head_sha: Some("head456".to_string()),
        compare_branch: Some("develop".to_string()),
        strategy: None,
    };
    assert_eq!(options.strategy(), DiffStrategy::LocalChanges);
}

#[test]
fn defaults_compare_local_changes() {
    assert_eq!(DiffStrategy::default(), DiffStrategy::LocalChanges);
    assert_eq!(
        DiffOptions::default().clone().strategy(),
        DiffStrategy::LocalChanges
    );
    let branch = DiffStrategy::WorktreeVsBranch {
        branch: "main".to_string(),
    };
    assert_eq!(branch.clone(), branch);
}
