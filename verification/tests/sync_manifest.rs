use fslabscli::commands::sync_repos::error::{SyncError, TomlInput};
use fslabscli::commands::sync_repos::manifest::{read_workspace_version, skipped_updates, Skipped};
use fslabscli::commands::sync_repos::{
    ensure_fsl_registry, strip_path_from_deps, transform_root_cargo_toml,
};

#[test]
fn test_strip_path_from_deps() {
    let input = r#"[dependencies]
serde = { version = "1.0", features = ["derive"] }
my-crate = { path = "../my-crate", version = "0.1.0", registry = "fsl" }
simple-crate = "2.0.0"

[dev-dependencies]
test-helper = { path = "../test-helper", version = "0.2.0" }

[build-dependencies]
build-tool = { path = "../build-tool", features = ["fancy"] }
"#;

    let result = strip_path_from_deps(input, &[]).unwrap();

    assert!(!result.contains("path = "));
    assert!(result.contains(r#"version = "1.0""#));
    assert!(result.contains(r#"version = "0.1.0""#));
    assert!(result.contains(r#"registry = "fsl""#));
    assert!(result.contains(r#"features = ["derive"]"#));
    assert!(result.contains(r#"version = "0.2.0""#));
    assert!(result.contains(r#"features = ["fancy"]"#));
    assert!(result.contains(r#"simple-crate = "2.0.0""#));
}

#[test]
fn test_strip_path_noop_when_no_paths() {
    let input = r#"[dependencies]
serde = { version = "1.0", features = ["derive"] }
anyhow = "1.0"

[dev-dependencies]
mockall = "0.13"
"#;

    let result = strip_path_from_deps(input, &[]).unwrap();

    assert!(result.contains("serde"));
    assert!(result.contains("anyhow"));
    assert!(result.contains("mockall"));
    assert!(!result.contains("path"));
    assert_eq!(result, input);
}

#[test]
fn test_strip_path_from_deps_rewrites_member_paths() {
    let input = r#"[dependencies]
spatial_drive = { path = "../spatial_drive", version = "*", registry = "fsl" }
serde = { path = "../vendored/serde", version = "1.0" }
clap = { version = "4.0" }
"#;

    let members = vec!["spatial_drive".to_owned()];
    let result = strip_path_from_deps(input, &members).unwrap();

    assert!(result.contains(r#"path = "../spatial_drive""#));
    assert!(!result.contains(r#"registry = "fsl""#));
    assert!(result.contains("serde"));
    assert!(!result.contains("vendored"));
    assert!(result.contains("clap"));
}

#[test]
fn strip_reaches_target_sections_and_tables() {
    let input = r#"[target.'cfg(unix)'.dependencies]
a = { path = "../a", version = "1" }

[target.'cfg(unix)'.build-dependencies.member]
path = "elsewhere"
registry = "fsl"
version = "2"

[other]
a = { path = "kept" }
"#;
    let result = strip_path_from_deps(input, &["member".to_owned()]).unwrap();
    let doc: toml_edit::DocumentMut = result.parse().unwrap();
    let unix = &doc["target"]["cfg(unix)"];
    assert!(unix["dependencies"]["a"].get("path").is_none());
    assert_eq!(unix["dependencies"]["a"]["version"].as_str(), Some("1"));
    let member = &unix["build-dependencies"]["member"];
    assert_eq!(member["path"].as_str(), Some("../member"));
    assert!(member.get("registry").is_none());
    assert_eq!(member["version"].as_str(), Some("2"));
    assert_eq!(doc["other"]["a"]["path"].as_str(), Some("kept"));
}

#[test]
fn strip_adds_a_path_for_a_member_without_one() {
    let input = "[dependencies]\nm = { version = \"1\" }\nn = \"1\"\n";
    let members = ["m".to_owned(), "n".to_owned()];
    let once = strip_path_from_deps(input, &members).unwrap();
    let doc: toml_edit::DocumentMut = once.parse().unwrap();
    assert_eq!(doc["dependencies"]["m"]["path"].as_str(), Some("../m"));
    assert_eq!(doc["dependencies"]["n"].as_str(), Some("1"));
    let twice = strip_path_from_deps(&once, &members).unwrap();
    assert_eq!(twice, once);
}

#[test]
fn test_transform_root_cargo_toml_version() {
    let src = r#"[workspace.package]
version = "2.0.0"

[workspace.dependencies]
serde = "1.0"
"#;

    let dst = r#"[workspace.package]
version = "1.0.0"

[workspace.dependencies]
serde = "1.0"
"#;

    let result = transform_root_cargo_toml(src, dst).unwrap();
    assert!(result.contains(r#"version = "2.0.0""#));
    assert!(!result.contains(r#"version = "1.0.0""#));
}

#[test]
fn test_transform_root_cargo_toml_members_preserved() {
    let src = r#"[workspace]
members = ["apps/src-app"]

[workspace.package]
version = "1.0.0"

[workspace.dependencies]
serde = "1.0"
"#;

    let dst = r#"[workspace]
members = ["apps/dst-app-a", "apps/dst-app-b"]
default-members = ["apps/dst-app-a"]

[workspace.package]
version = "0.9.0"

[workspace.dependencies]
serde = "1.0"
"#;

    let result = transform_root_cargo_toml(src, dst).unwrap();
    assert!(result.contains("dst-app-a"));
    assert!(result.contains("dst-app-b"));
    assert!(!result.contains("src-app"));
}

#[test]
fn test_transform_root_cargo_toml_deps_merged() {
    let src = r#"[workspace]
members = ["dep-a", "dep-b"]

[workspace.package]
version = "1.0.0"

[workspace.dependencies]
dep-a = { path = "dep-a", version = "1.0" }
dep-b = { path = "dep-b", version = "2.0" }
serde = { path = "../vendored/serde", version = "1.0" }
"#;

    let dst = r#"[workspace.package]
version = "0.9.0"

[workspace.dependencies]
dep-a = { version = "1.0" }
dep-c = { version = "3.0", registry = "fsl" }
"#;

    let result = transform_root_cargo_toml(src, dst).unwrap();

    assert!(result.contains("dep-a"));
    assert!(result.contains("dep-b"));
    assert!(result.contains(r#"path = "apps/dep-a""#));
    assert!(result.contains(r#"path = "apps/dep-b""#));
    assert!(result.contains("serde"));
    assert!(!result.contains("vendored"));
    assert!(result.contains("dep-c"));
    assert!(result.contains(r#"registry = "fsl""#));
}

#[test]
fn test_transform_root_cargo_toml_patches_from_source() {
    let src = r#"[workspace.package]
version = "1.0.0"

[workspace.dependencies]
serde = "1.0"

[patch.crates-io]
serde = { git = "https://github.com/example/serde" }
"#;

    let dst = r#"[workspace.package]
version = "0.9.0"

[workspace.dependencies]
serde = "1.0"
"#;

    let result = transform_root_cargo_toml(src, dst).unwrap();
    assert!(result.contains("patch"));
    assert!(result.contains("crates-io"));
    assert!(result.contains("https://github.com/example/serde"));
}

#[test]
fn test_transform_root_cargo_toml_profiles_preserved() {
    let src = r#"[workspace.package]
version = "1.0.0"

[workspace.dependencies]
serde = "1.0"
"#;

    let dst = r#"[workspace.package]
version = "0.9.0"

[workspace.dependencies]
serde = "1.0"

[profile.release]
opt-level = 3
lto = true
codegen-units = 1
"#;

    let result = transform_root_cargo_toml(src, dst).unwrap();
    assert!(result.contains("[profile.release]"));
    assert!(result.contains("opt-level = 3"));
    assert!(result.contains("lto = true"));
    assert!(result.contains("codegen-units = 1"));
}

#[test]
fn test_transform_root_cargo_toml_no_src_deps_preserves_dst() {
    let src = r#"[workspace.package]
version = "2.0.0"
"#;

    let dst = r#"[workspace.package]
version = "1.0.0"

[workspace.dependencies]
serde = "1.0"
"#;

    let result = transform_root_cargo_toml(src, dst).unwrap();
    assert!(result.contains(r#"version = "2.0.0""#));
    assert!(result.contains("serde"));
}

#[test]
fn transform_drops_patches_that_the_source_lacks() {
    let src = "[workspace.package]\nversion = \"2\"\n";
    let dst = "[workspace.package]\nversion = \"1\"\n\n[patch.crates-io]\nx = { path = \"x\" }\n";
    let result = transform_root_cargo_toml(src, dst).unwrap();
    assert!(!result.contains("patch"));
    assert!(result.contains("version = \"2\""));
}

#[test]
fn transform_takes_member_names_from_the_last_component() {
    let src = "[workspace]\nmembers = [\"a/b/tool\", \"plain\"]\n\n[workspace.dependencies]\ntool = { version = \"1\" }\nplain = { path = \"plain\" }\nb = { path = \"a/b\" }\n";
    let dst = "[workspace]\nmembers = []\n";
    let result = transform_root_cargo_toml(src, dst).unwrap();
    let doc: toml_edit::DocumentMut = result.parse().unwrap();
    let deps = &doc["workspace"]["dependencies"];
    assert_eq!(deps["tool"]["path"].as_str(), Some("apps/tool"));
    assert_eq!(deps["plain"]["path"].as_str(), Some("apps/plain"));
    assert!(deps["b"].get("path").is_none());
    let again = transform_root_cargo_toml(src, &result).unwrap();
    assert_eq!(again, result);
}

#[test]
fn transform_leaves_a_target_without_workspace_alone() {
    let src = "[workspace.package]\nversion = \"2\"\n\n[workspace.dependencies]\na = \"1\"\n";
    let dst = "[package]\nname = \"x\"\n";
    assert_eq!(transform_root_cargo_toml(src, dst).unwrap(), dst);
}

#[test]
fn test_ensure_fsl_registry_adds_missing() {
    let input = r#"[source.crates-io]
replace-with = "vendored-sources"
"#;

    let result = ensure_fsl_registry(input).unwrap();
    assert!(result.contains("fsl"));
    assert!(result.contains("sparse+https://crates.fsl.dev/api/v1/crates/"));
}

#[test]
fn test_ensure_fsl_registry_preserves_existing() {
    let input = r#"[registries.fsl]
index = "sparse+https://custom.registry.example.com/"
"#;

    let result = ensure_fsl_registry(input).unwrap();
    assert!(result.contains("sparse+https://custom.registry.example.com/"));
    assert!(!result.contains("sparse+https://crates.fsl.dev/api/v1/crates/"));
}

#[test]
fn ensured_registry_stands_beside_others() {
    let input = "[registries.other]\nindex = \"o\"\n";
    let once = ensure_fsl_registry(input).unwrap();
    let doc: toml_edit::DocumentMut = once.parse().unwrap();
    assert_eq!(doc["registries"]["other"]["index"].as_str(), Some("o"));
    assert_eq!(
        doc["registries"]["fsl"]["index"].as_str(),
        Some("sparse+https://crates.fsl.dev/api/v1/crates/")
    );
    assert_eq!(ensure_fsl_registry(&once).unwrap(), once);
}

#[test]
fn registries_that_are_no_table_are_refused() {
    let error = ensure_fsl_registry("registries = 1\n").unwrap_err();
    assert_eq!(error, SyncError::RegistriesNotTable);
    assert_eq!(error.to_string(), "[registries] is not a table");
}

#[test]
fn workspace_version_is_read() {
    assert_eq!(
        read_workspace_version("/s/Cargo.toml", "[workspace.package]\nversion = \"3.1\"\n").unwrap(),
        "3.1"
    );
    let error = read_workspace_version("/s/Cargo.toml", "[workspace]\n").unwrap_err();
    assert_eq!(
        error.to_string(),
        "No [workspace.package.version] found in source Cargo.toml"
    );
    let error = read_workspace_version("/s/Cargo.toml", "[workspace.package]\nversion = 3\n").unwrap_err();
    assert_eq!(error, SyncError::NoWorkspaceVersion);
    let error = read_workspace_version("/s/Cargo.toml", "version = [").unwrap_err();
    assert_eq!(error.to_string(), "Failed to parse /s/Cargo.toml");
}

fn input_of(error: SyncError) -> TomlInput {
    match error {
        SyncError::BadToml { input, message } => {
            assert!(message.contains("TOML parse error"));
            input
        }
        _ => panic!("Expected BadToml"),
    }
}

#[test]
fn each_bad_document_is_told_apart() {
    let error = strip_path_from_deps("= 1", &[]).unwrap_err();
    assert_eq!(
        error.to_string(),
        "Failed to parse TOML for strip_path_from_deps"
    );
    assert_eq!(input_of(error), TomlInput::AppManifest);
    let error = transform_root_cargo_toml("= 1", "= 2").unwrap_err();
    assert_eq!(error.to_string(), "Failed to parse source Cargo.toml");
    assert_eq!(input_of(error), TomlInput::SourceManifest);
    let error = transform_root_cargo_toml("", "= 2").unwrap_err();
    assert_eq!(error.to_string(), "Failed to parse destination Cargo.toml");
    assert_eq!(input_of(error), TomlInput::TargetManifest);
    let error = ensure_fsl_registry("a = {").unwrap_err();
    assert_eq!(error.to_string(), "Failed to parse Cargo config TOML");
    assert_eq!(input_of(error), TomlInput::CargoConfig);
    match read_workspace_version("/s/Cargo.toml", "a = {").unwrap_err() {
        SyncError::BadVersionToml { path, message } => {
            assert_eq!(path, "/s/Cargo.toml");
            assert!(message.contains("TOML parse error"));
        }
        _ => panic!("Expected BadVersionToml"),
    }
}

#[test]
fn skipped_updates_are_known() {
    let src = "[workspace.package]\nversion = \"2\"\n\n[workspace.dependencies]\na = \"1\"\n";
    let both = Skipped {
        version: true,
        dependencies: true,
    };
    assert_eq!(skipped_updates(src, "[package]\nname = \"x\"\n"), Some(both));
    assert_eq!(
        skipped_updates(src, "[workspace]\nmembers = []\n"),
        Some(Skipped {
            version: true,
            dependencies: false,
        })
    );
    let none = Skipped {
        version: false,
        dependencies: false,
    };
    assert_eq!(skipped_updates(src, src), Some(none));
    assert_eq!(skipped_updates("", ""), Some(none));
    assert_eq!(skipped_updates("= 1", ""), None);
    assert_eq!(skipped_updates("", "= 1"), None);
}
