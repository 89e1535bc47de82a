use assert_fs::fixture::{FileWriteStr, PathChild, PathCreateDir};
use fslabscli::commands::sync_repos::discover::{discover_apps, SourceEntry};
use fslabscli::commands::sync_repos::relative_paths::{
    adjust_relative_paths, adjust_source, rewrite_path,
};

#[test]
fn test_discover_apps() {
    let dir = assert_fs::TempDir::new().unwrap();
    dir.child("app_a").create_dir_all().unwrap();
    dir.child("app_a/Cargo.toml")
        .write_str("[package]\nname = \"app_a\"")
        .unwrap();
    dir.child("app_b").create_dir_all().unwrap();
    dir.child("app_b/Cargo.toml")
        .write_str("[package]\nname = \"app_b\"")
        .unwrap();
    dir.child("not_an_app").create_dir_all().unwrap();
    dir.child("Cargo.toml").write_str("[workspace]").unwrap();

    let mut entries = vec![];
    for entry in walkdir::WalkDir::new(dir.path()).min_depth(1).max_depth(1) {
        let path = entry.unwrap().into_path();
        entries.push(SourceEntry {
            name: path.file_name().and_then(|n| n.to_str()).map(str::to_string),
            is_dir: path.is_dir(),
            has_manifest: path.join("Cargo.toml").exists(),
        });
    }
    let apps = discover_apps(&entries);
    assert_eq!(apps, vec!["app_a", "app_b"]);
}

fn entry(name: &str, is_dir: bool, has_manifest: bool) -> SourceEntry {
    SourceEntry {
        name: Some(name.to_string()),
        is_dir,
        has_manifest,
    }
}

#[test]
fn discovered_apps_are_sorted() {
    let entries = vec![
        entry("b", true, true),
        entry("a10", true, true),
        entry("file", false, true),
        entry("plain", true, false),
        SourceEntry {
            name: None,
            is_dir: true,
            has_manifest: true,
        },
        entry("a1", true, true),
        entry("B", true, true),
    ];
    assert_eq!(discover_apps(&entries), vec!["B", "a1", "a10", "b"]);
    assert!(discover_apps(&[]).is_empty());
}

#[test]
fn listing_order_leaves_the_apps_alone() {
    let mut entries = vec![
        entry("c", true, true),
        entry("a", true, true),
        entry("b", true, true),
    ];
    let apps = discover_apps(&entries);
    entries.reverse();
    assert_eq!(discover_apps(&entries), apps);
}

#[test]
fn test_adjust_relative_paths_adds_level() {
    let input = r#"let icon_buf = std::io::Cursor::new(include_bytes!(
    "../../../../fdk/assets/branding/SD_32_W.png"
));
"#;

    let result = adjust_relative_paths(input, 2);
    assert!(result.contains("../../../../../fdk/assets/branding/SD_32_W.png"));
}

#[test]
fn test_adjust_relative_paths_no_change_within_app() {
    let input = r#"let data = include_bytes!("../data/test.bin");
"#;

    let result = adjust_relative_paths(input, 1);
    assert!(result.contains("\"../data/test.bin\""));
    assert!(!result.contains("../../"));
}

#[test]
fn test_adjust_relative_paths_include_str() {
    let input = r#"let sql = include_str!("../../../schema.sql");"#;

    let result = adjust_relative_paths(input, 2);
    assert!(result.contains("../../../../schema.sql"));
}

#[test]
fn every_escaping_path_is_adjusted() {
    let input = "include!(\"../a\") x include_str! ( \"../../b\" ) include_bytes!(\"c\") \"../../d\"";
    assert_eq!(
        adjust_relative_paths(input, 0),
        "include!(\"../../a\") x include_str! ( \"../../../b\" ) include_bytes!(\"c\") \"../../d\""
    );
    assert_eq!(
        adjust_relative_paths(input, 1),
        "include!(\"../a\") x include_str! ( \"../../../b\" ) include_bytes!(\"c\") \"../../d\""
    );
    assert_eq!(adjust_relative_paths(input, 2), input);
}

#[test]
fn odd_spellings_are_left_alone() {
    for input in [
        "include_bin!(\"../a\")",
        "include !(\"../a\")",
        "include!['../a']",
        "include!(r\"../a\")",
        "include!(\".../a\")",
        "",
    ] {
        assert_eq!(adjust_relative_paths(input, 0), input);
    }
}

#[test]
fn spaces_of_all_kinds_may_stand_inside() {
    assert_eq!(
        adjust_relative_paths("include!\u{2003}(\n\t\"../a\")", 0),
        "include!\u{2003}(\n\t\"../../a\")"
    );
    assert_eq!(
        adjust_relative_paths("my_include!(\"../é\")", 0),
        "my_include!(\"../../é\")"
    );
}

#[test]
fn one_path_is_rewritten_by_depth() {
    assert_eq!(rewrite_path("p\"", "../../x", 1), "p\"../../../x");
    assert_eq!(rewrite_path("p\"", "../../x", 2), "p\"../../x");
    assert_eq!(rewrite_path("", "../a/../", 0), "../../a/../");
}

#[test]
fn only_changed_sources_are_rewritten() {
    assert_eq!(
        adjust_source("include!(\"../a\")", 0),
        Some("include!(\"../../a\")".to_string())
    );
    assert_eq!(adjust_source("include!(\"../a\")", 1), None);
    assert_eq!(adjust_source("no path here", 0), None);
    assert_eq!(adjust_source("../ but no macro", 0), None);
}
