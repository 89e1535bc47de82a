use std::path::PathBuf;

use fslabscli::commands::draft_release::error::DraftError;
use fslabscli::commands::draft_release::find::{
    find_or_create_draft_release, FindAction, FindReply, Release,
};
use fslabscli::commands::draft_release::{
    draft_release, validate_options, DraftAction, DraftReleaseResult, DraftReply, Options,
};
use fslabscli::commands::release_utils::{
    format_tag, upload_artifacts_to_release, ArtifactEntry, Asset, FileStep, UploadAction,
    UploadError, UploadReply,
};

fn base_options() -> Options {
    Options {
        repo_owner: "owner".to_string(),
        repo_name: "repo".to_string(),
        github_app_id: None,
        github_app_private_key: None,
        artifacts: PathBuf::from("."),
        release_tag: None,
        tag_format: "{package_name}-{version}".to_string(),
        package_name: String::new(),
        version: String::new(),
        release_name: None,
    }
}

#[test]
fn should_pass_when_release_tag_provided_and_version_empty() {
    let options = Options {
        release_tag: Some("v1.0.0".to_string()),
        version: String::new(),
        ..base_options()
    };
    let result = validate_options(&options);
    assert!(result.is_ok());
}

#[test]
fn should_error_when_release_tag_absent_and_version_empty() {
    let options = Options {
        release_tag: None,
        version: String::new(),
        ..base_options()
    };
    let result = validate_options(&options);
    assert!(result.is_err());
    assert!(result
        .unwrap_err()
        .to_string()
        .contains("--version or --release-tag is required"));
}

#[test]
fn should_error_when_tag_format_uses_package_name_and_package_name_empty() {
    let options = Options {
        release_tag: None,
        tag_format: "{package_name}-{version}".to_string(),
        package_name: String::new(),
        version: "1.2.3".to_string(),
        ..base_options()
    };
    let result = validate_options(&options);
    assert!(result.is_err());
    assert!(result
        .unwrap_err()
        .to_string()
        .contains("--package-name is required"));
}

#[test]
fn should_pass_when_tag_format_omits_package_name_placeholder() {
    let options = Options {
        release_tag: None,
        tag_format: "v{version}".to_string(),
        package_name: String::new(),
        version: "1.2.3".to_string(),
        ..base_options()
    };
    let result = validate_options(&options);
    assert!(result.is_ok());
}

#[test]
fn should_pass_when_tag_format_uses_package_name_and_all_fields_provided() {
    let options = Options {
        release_tag: None,
        tag_format: "{package_name}-{version}".to_string(),
        package_name: "my-crate".to_string(),
        version: "1.2.3".to_string(),
        ..base_options()
    };
    let result = validate_options(&options);
    assert!(result.is_ok());
}

#[test]
fn error_messages_are_exact() {
    assert_eq!(
        DraftError::NoPackageName.to_string(),
        "--package-name is required when --tag-format contains {package_name}"
    );
    assert_eq!(
        DraftError::NoCredentials.to_string(),
        "--github-app-id and --github-app-private-key are required"
    );
    assert_eq!(
        DraftError::UnexpectedReply.to_string(),
        "The reply does not answer the request"
    );
}

#[test]
fn test_format_tag_interpolates_both_placeholders() {
    assert_eq!(
        format_tag("{package_name}-{version}", "my-crate", "1.2.3"),
        "my-crate-1.2.3"
    );
}

#[test]
fn test_format_tag_version_only_template() {
    assert_eq!(format_tag("v{version}", "ignored", "4.5.6"), "v4.5.6");
}

#[test]
fn test_format_tag_static_template() {
    assert_eq!(format_tag("stable", "pkg", "1.0.0"), "stable");
}

#[test]
fn test_format_tag_empty_version() {
    assert_eq!(format_tag("v{version}", "pkg", ""), "v");
}

#[test]
fn tag_fills_every_placeholder_in() {
    assert_eq!(
        format_tag("{version}/{package_name}/{version}", "p", "2"),
        "2/p/2"
    );
    assert_eq!(format_tag("{{version}}", "p", "2"), "{2}");
    assert_eq!(format_tag("{package_name}", "a{version}b", "2"), "a2b");
}

fn with_credentials() -> Options {
    Options {
        github_app_id: Some(7),
        github_app_private_key: Some(PathBuf::from("key.pem")),
        ..base_options()
    }
}

#[test]
fn credentials_come_first() {
    let mut options = with_credentials();
    options.github_app_id = None;
    assert_eq!(
        draft_release(&options).unwrap_err(),
        DraftError::NoCredentials
    );
    let mut options = with_credentials();
    options.github_app_private_key = None;
    options.release_tag = Some("v1".to_string());
    assert_eq!(
        draft_release(&options).unwrap_err(),
        DraftError::NoCredentials
    );
    assert_eq!(
        draft_release(&with_credentials()).unwrap_err(),
        DraftError::NoVersion
    );
}

#[test]
fn draft_runs_to_its_report() {
    let mut options = with_credentials();
    options.package_name = "my-crate".to_string();
    options.version = "1.2.3".to_string();
    options.release_name = Some("My Crate".to_string());
    let run = draft_release(&options).unwrap();
    assert_eq!(
        run.request(),
        DraftAction::FindRelease {
            tag: "my-crate-1.2.3".to_string(),
            name: Some("My Crate".to_string()),
        }
    );
    let run = run.reply(DraftReply::Found(42)).unwrap();
    assert_eq!(run.request(), DraftAction::CheckArtifacts);
    let run = run.reply(DraftReply::Answer(true)).unwrap();
    assert_eq!(
        run.request(),
        DraftAction::UploadArtifacts { release_id: 42 }
    );
    let run = run
        .reply(DraftReply::Uploaded(vec!["a.bin".to_string(), "b.bin".to_string()]))
        .unwrap();
    assert_eq!(run.request(), DraftAction::Finish);
    let result = run.finish().unwrap();
    assert_eq!(
        result.pretty_print(),
        "Draft release: my-crate-1.2.3 (id=42)\n  Uploaded assets:\n    - a.bin\n    - b.bin\n"
    );
}

#[test]
fn draft_without_artifacts_uploads_nothing() {
    let mut options = with_credentials();
    options.release_tag = Some("v9".to_string());
    let run = draft_release(&options).unwrap();
    assert!(run.reply(DraftReply::Answer(true)).is_err());
    let run = draft_release(&options).unwrap();
    assert!(draft_release(&options).unwrap().finish().is_none());
    let run = run.reply(DraftReply::Found(1)).unwrap();
    let run = run.reply(DraftReply::Answer(false)).unwrap();
    let result = run.finish().unwrap();
    assert_eq!(
        result,
        DraftReleaseResult {
            tag: "v9".to_string(),
            release_id: 1,
            uploaded_assets: vec![],
        }
    );
    assert_eq!(
        result.to_string(),
        "Draft release: v9 (id=1)\n  No assets uploaded.\n"
    );
}

fn release(id: u64, tag: &str, draft: bool) -> Release {
    Release {
        id,
        tag_name: tag.to_string(),
        draft,
        name: Some(tag.to_string()),
    }
}

fn missing() -> FindReply {
    FindReply::FetchFailed {
        status: Some(404),
        message: "Not Found".to_string(),
    }
}

#[test]
fn test_find_or_create_draft_release_found_via_get_by_tag() {
    let tag = "my-pkg-1.0.0";
    let run = find_or_create_draft_release(tag.to_string(), None);
    assert_eq!(
        run.request(),
        FindAction::FetchByTag {
            tag: tag.to_string()
        }
    );
    let run = run
        .reply(FindReply::Release(release(42, tag, true)))
        .unwrap();
    assert_eq!(run.request(), FindAction::Finish);
    let release = run.finish().unwrap();
    assert_eq!(release.id, 42u64);
    assert_eq!(release.tag_name, tag);
    assert!(release.draft);
}

#[test]
fn test_find_or_create_draft_release_published_release_returned_with_warning() {
    let tag = "my-pkg-2.0.0";
    let run = find_or_create_draft_release(tag.to_string(), None);
    let run = run
        .reply(FindReply::Release(release(77, tag, false)))
        .unwrap();
    let release = run.finish().unwrap();
    assert_eq!(release.id, 77u64);
    assert!(!release.draft);
}

#[test]
fn test_find_or_create_draft_release_found_via_list() {
    let tag = "my-pkg-3.0.0";
    let run = find_or_create_draft_release(tag.to_string(), None);
    let run = run.reply(missing()).unwrap();
    assert_eq!(run.request(), FindAction::ListReleases { per_page: 100 });
    let run = run
        .reply(FindReply::Releases(vec![release(55, tag, true)]))
        .unwrap();
    let release = run.finish().unwrap();
    assert_eq!(release.id, 55u64);
    assert!(release.draft);
}

#[test]
fn test_find_or_create_draft_release_creates_new_when_none_exists() {
    let tag = "my-pkg-4.0.0";
    let run = find_or_create_draft_release(tag.to_string(), None);
    let run = run.reply(missing()).unwrap();
    let run = run.reply(FindReply::Releases(vec![])).unwrap();
    assert_eq!(
        run.request(),
        FindAction::CreateDraft {
            tag: tag.to_string(),
            name: None,
        }
    );
    let run = run
        .reply(FindReply::Release(release(66, tag, true)))
        .unwrap();
    let release = run.finish().unwrap();
    assert_eq!(release.id, 66u64);
    assert!(release.draft);
    assert_eq!(release.tag_name, tag);
}

#[test]
fn test_find_or_create_draft_release_ignores_draft_with_different_tag() {
    let tag = "my-pkg-5.0.0";
    let run = find_or_create_draft_release(tag.to_string(), None);
    let run = run.reply(missing()).unwrap();
    let run = run
        .reply(FindReply::Releases(vec![release(11, "other-pkg-1.0.0", true)]))
        .unwrap();
    assert!(matches!(run.request(), FindAction::CreateDraft { .. }));
    let run = run
        .reply(FindReply::Release(release(88, tag, true)))
        .unwrap();
    let release = run.finish().unwrap();
    assert_eq!(release.id, 88u64);
    assert_eq!(release.tag_name, tag);
}

#[test]
fn test_find_or_create_draft_release_propagates_non_404_error() {
    let tag = "my-pkg-6.0.0";
    let run = find_or_create_draft_release(tag.to_string(), None);
    let result = run.reply(FindReply::FetchFailed {
        status: Some(500),
        message: "Service unavailable".to_string(),
    });
    assert!(result.is_err());
    assert_eq!(
        result.unwrap_err().to_string(),
        "Failed to fetch release for tag: my-pkg-6.0.0"
    );
    let run = find_or_create_draft_release(tag.to_string(), None);
    let result = run.reply(FindReply::FetchFailed {
        status: None,
        message: "no connection".to_string(),
    });
    assert!(result.is_err());
}

#[test]
fn test_find_or_create_draft_release_uses_provided_name() {
    let tag = "my-pkg-7.0.0";
    let name = "My Package 7.0.0";
    let run = find_or_create_draft_release(tag.to_string(), Some(name.to_string()));
    let run = run.reply(missing()).unwrap();
    let run = run.reply(FindReply::Releases(vec![])).unwrap();
    assert_eq!(
        run.request(),
        FindAction::CreateDraft {
            tag: tag.to_string(),
            name: Some(name.to_string()),
        }
    );
    let created = Release {
        id: 99,
        tag_name: tag.to_string(),
        draft: true,
        name: Some(name.to_string()),
    };
    let release = run.reply(FindReply::Release(created)).unwrap().finish().unwrap();
    assert_eq!(release.name.as_deref(), Some(name));
}

#[test]
fn untitled_draft_takes_the_tag() {
    let mut options = with_credentials();
    options.tag_format = "v{version}".to_string();
    options.version = "1.2.3".to_string();
    let run = draft_release(&options).unwrap();
    assert_eq!(
        run.request(),
        DraftAction::FindRelease {
            tag: "v1.2.3".to_string(),
            name: Some("v1.2.3".to_string()),
        }
    );
    options.release_tag = Some("nightly".to_string());
    let run = draft_release(&options).unwrap();
    assert_eq!(
        run.request(),
        DraftAction::FindRelease {
            tag: "nightly".to_string(),
            name: Some("nightly".to_string()),
        }
    );
}

#[test]
fn failed_requests_stop_the_search() {
    let message = || "down".to_string();
    let listing = || {
        find_or_create_draft_release("v1".to_string(), None)
            .reply(missing())
            .unwrap()
    };
    let error = listing()
        .reply(FindReply::ListFailed { message: message() })
        .unwrap_err();
    assert_eq!(error.to_string(), "Failed to list releases to find draft");
    let error = listing()
        .reply(FindReply::PagingFailed { message: message() })
        .unwrap_err();
    assert_eq!(
        error.to_string(),
        "Failed to paginate releases to find draft"
    );
    let error = listing()
        .reply(FindReply::Releases(vec![]))
        .unwrap()
        .reply(FindReply::CreateFailed { message: message() })
        .unwrap_err();
    assert_eq!(
        error,
        DraftError::CreateFailed {
            tag: "v1".to_string(),
            message: message(),
        }
    );
    assert_eq!(
        error.to_string(),
        "Failed to create draft release for tag: v1"
    );
    let error = listing()
        .reply(FindReply::CreateFailed { message: message() })
        .unwrap_err();
    assert_eq!(error, DraftError::UnexpectedReply);
}

#[test]
fn failed_upload_names_the_tag() {
    let mut options = with_credentials();
    options.release_tag = Some("v9".to_string());
    let run = draft_release(&options).unwrap();
    let run = run.reply(DraftReply::Found(1)).unwrap();
    let run = run.reply(DraftReply::Answer(true)).unwrap();
    let error = run
        .reply(DraftReply::UploadFailed {
            message: "down".to_string(),
        })
        .unwrap_err();
    assert_eq!(
        error.to_string(),
        "Failed to upload artifacts to release v9"
    );
}

#[test]
fn first_draft_of_the_tag_is_taken() {
    let run = find_or_create_draft_release("v1".to_string(), None);
    let run = run.reply(missing()).unwrap();
    let run = run
        .reply(FindReply::Releases(vec![
            release(1, "v1", false),
            release(2, "v2", true),
            release(3, "v1", true),
            release(4, "v1", true),
        ]))
        .unwrap();
    assert_eq!(run.finish().unwrap().id, 3);
}

#[test]
fn search_refuses_a_wrong_reply() {
    let run = find_or_create_draft_release("v1".to_string(), None);
    assert_eq!(
        run.reply(FindReply::Releases(vec![])).unwrap_err(),
        DraftError::UnexpectedReply
    );
    let run = find_or_create_draft_release("v1".to_string(), None);
    assert!(run.finish().is_none());
}

fn file(name: &str) -> ArtifactEntry {
    ArtifactEntry {
        name: Some(name.to_string()),
        is_file: true,
    }
}

/// What an upload asks for after its artifacts are listed, and what it uploads.
fn run_upload(
    release_id: u64,
    assets: Vec<Asset>,
    entries: Vec<ArtifactEntry>,
) -> (Vec<UploadAction>, Vec<String>) {
    let run = upload_artifacts_to_release(release_id);
    assert_eq!(
        run.request(),
        UploadAction::ListAssets {
            release_id,
            per_page: 100,
        }
    );
    let run = run.reply(UploadReply::Assets(assets)).unwrap();
    assert_eq!(run.request(), UploadAction::ListArtifacts);
    let mut run = run.reply(UploadReply::Entries(entries)).unwrap();
    let mut asked = vec![];
    while run.request() != UploadAction::Finish {
        asked.push(run.request());
        run = run.reply(UploadReply::Done).unwrap();
    }
    (asked, run.finish())
}

#[test]
fn test_upload_artifacts_happy_path() {
    let (asked, uploaded) = run_upload(1, vec![], vec![file("artifact.bin")]);
    assert_eq!(
        asked,
        vec![
            UploadAction::Read { position: 0 },
            UploadAction::Upload {
                release_id: 1,
                position: 0,
                name: "artifact.bin".to_string(),
            },
        ]
    );
    assert_eq!(uploaded, vec!["artifact.bin"]);
}

#[test]
fn test_upload_artifacts_empty_directory() {
    let (asked, uploaded) = run_upload(2, vec![], vec![]);
    assert!(asked.is_empty());
    assert!(uploaded.is_empty());
}

#[test]
fn test_upload_artifacts_deduplicates_existing_asset() {
    let existing = Asset {
        id: 99,
        name: "artifact.bin".to_string(),
    };
    let (asked, uploaded) = run_upload(3, vec![existing], vec![file("artifact.bin")]);
    assert_eq!(
        asked,
        vec![
            UploadAction::Read { position: 0 },
            UploadAction::Delete {
                id: 99,
                name: "artifact.bin".to_string(),
            },
            UploadAction::Upload {
                release_id: 3,
                position: 0,
                name: "artifact.bin".to_string(),
            },
        ]
    );
    assert_eq!(uploaded, vec!["artifact.bin"]);
}

#[test]
fn test_upload_artifacts_multiple_files_one_duplicate() {
    let stale = Asset {
        id: 50,
        name: "old.bin".to_string(),
    };
    let (asked, mut uploaded) =
        run_upload(5, vec![stale], vec![file("old.bin"), file("new.bin")]);
    let mut deleted = vec![];
    for action in asked {
        if let UploadAction::Delete { id, .. } = action {
            deleted.push(id);
        }
    }
    assert_eq!(deleted, vec![50]);
    uploaded.sort();
    assert_eq!(uploaded, vec!["new.bin", "old.bin"]);
}

#[test]
fn directories_and_odd_names_are_not_uploaded() {
    let entries = vec![
        ArtifactEntry {
            name: Some("dir".to_string()),
            is_file: false,
        },
        ArtifactEntry {
            name: None,
            is_file: true,
        },
        file("kept.bin"),
    ];
    let (asked, uploaded) = run_upload(6, vec![], entries);
    assert_eq!(asked[0], UploadAction::Read { position: 2 });
    assert_eq!(asked.len(), 2);
    assert_eq!(uploaded, vec!["kept.bin"]);
}

#[test]
fn first_of_two_equal_files_is_deleted() {
    let assets = vec![
        Asset {
            id: 1,
            name: "x".to_string(),
        },
        Asset {
            id: 2,
            name: "a".to_string(),
        },
        Asset {
            id: 3,
            name: "a".to_string(),
        },
    ];
    let (asked, _) = run_upload(7, assets, vec![file("a")]);
    assert_eq!(
        asked[1],
        UploadAction::Delete {
            id: 2,
            name: "a".to_string(),
        }
    );
    assert_eq!(asked.len(), 3);
}

#[test]
fn upload_refuses_a_wrong_reply() {
    let run = upload_artifacts_to_release(1);
    assert_eq!(
        run.reply(UploadReply::Done).unwrap_err(),
        UploadError::UnexpectedReply
    );
}

#[test]
fn test_upload_artifacts_upload_failure_propagates_error() {
    let run = upload_artifacts_to_release(4);
    let run = run.reply(UploadReply::Assets(vec![])).unwrap();
    let run = run
        .reply(UploadReply::Entries(vec![file("fail.bin")]))
        .unwrap();
    let run = run.reply(UploadReply::Done).unwrap();
    assert!(matches!(run.request(), UploadAction::Upload { .. }));
    let result = run.reply(UploadReply::Failed {
        message: "Validation Failed".to_string(),
    });
    assert!(result.is_err());
    let msg = result.unwrap_err().to_string();
    assert!(msg.contains("Failed to upload asset"));
    assert_eq!(msg, "Failed to upload asset: fail.bin");
}

#[test]
fn every_failure_of_an_upload_is_told_apart() {
    let failed = || UploadReply::Failed {
        message: "down".to_string(),
    };
    let error = upload_artifacts_to_release(4).reply(failed()).unwrap_err();
    assert_eq!(error.to_string(), "Failed to list assets for release 4");
    let listed = || {
        upload_artifacts_to_release(4)
            .reply(UploadReply::Assets(vec![Asset {
                id: 1,
                name: "a".to_string(),
            }]))
            .unwrap()
    };
    let error = listed()
        .reply(UploadReply::DirFailed {
            path: "\"out\"".to_string(),
            message: "gone".to_string(),
        })
        .unwrap_err();
    assert_eq!(
        error.to_string(),
        "Failed to read artifact directory: \"out\""
    );
    let planned = || listed().reply(UploadReply::Entries(vec![file("a")])).unwrap();
    for (step, text) in [
        (FileStep::Stat, "Failed to stat \"out/a\""),
        (FileStep::Open, "Failed to open \"out/a\""),
        (FileStep::Read, "Failed to read \"out/a\""),
    ] {
        let error = planned()
            .reply(UploadReply::FileFailed {
                step,
                path: "\"out/a\"".to_string(),
                message: "gone".to_string(),
            })
            .unwrap_err();
        assert_eq!(error.to_string(), text);
    }
    let error = planned()
        .reply(UploadReply::Done)
        .unwrap()
        .reply(failed())
        .unwrap_err();
    assert_eq!(error.to_string(), "Failed to delete existing asset a");
    assert_eq!(
        planned().reply(failed()).unwrap_err().to_string(),
        "The reply does not answer the request"
    );
}
