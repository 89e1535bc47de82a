//! What holds of the edits to `Cargo.toml` files and to Cargo's configuration.
use vstd::prelude::*;

use super::manifest;
use super::toml;
use super::toml::{Entries, Toml};

verus! {

/// The keys that the edits go by are different ones.
pub proof fn names_differ()
    ensures
        "dependencies"@ != "dev-dependencies"@,
        "dependencies"@ != "build-dependencies"@,
        "dependencies"@ != "target"@,
        "dev-dependencies"@ != "build-dependencies"@,
        "dev-dependencies"@ != "target"@,
        "build-dependencies"@ != "target"@,
        "path"@ != "registry"@,
        "workspace"@ != "patch"@,
        "package"@ != "dependencies"@,
{
    reveal_strlit("dependencies");
    assert("dependencies"@.len() == 12);
    reveal_strlit("dev-dependencies");
    assert("dev-dependencies"@.len() == 16);
    reveal_strlit("build-dependencies");
    assert("build-dependencies"@.len() == 18);
    reveal_strlit("target");
    assert("target"@.len() == 6);
    reveal_strlit("path");
    assert("path"@.len() == 4);
    reveal_strlit("registry");
    assert("registry"@.len() == 8);
    reveal_strlit("workspace");
    assert("workspace"@.len() == 9);
    reveal_strlit("patch");
    assert("patch"@.len() == 5);
    reveal_strlit("package");
    assert("package"@.len() == 7);
}

/// A key that names a table of dependencies.
pub open spec fn is_section(key: Seq<char>) -> bool {
    key == "dependencies"@ || key == "dev-dependencies"@ || key == "build-dependencies"@
}

proof fn lookup_on_key(tree: Toml, key: Seq<char>, f: spec_fn(Toml) -> Toml, other: Seq<char>)
    ensures
        toml::lookup(toml::on_key(tree, key, f), other) == match toml::lookup(tree, other) {
            Some(value) => Some(
                if other == key {
                    f(value)
                } else {
                    value
                },
            ),
            None => None,
        },
{
    if let Some(value) = toml::lookup(tree, key) {
        toml::lookup_with_key(tree, key, f(value), other);
    }
}

proof fn on_key_settled(tree: Toml, key: Seq<char>, f: spec_fn(Toml) -> Toml)
    requires
        toml::lookup(tree, key) matches Some(value) ==> f(value) == value,
    ensures
        toml::on_key(tree, key, f) == tree,
{
    if let Some(value) = toml::lookup(tree, key) {
        toml::with_same_value(tree, key, value);
    }
}

/// What stripping makes of one dependency, field by field: a workspace member gets its
/// sibling's path and no registry, any other dependency no path; every other field stays.
pub proof fn stripped_dep_fields(
    dep: Toml,
    name: Seq<char>,
    members: Seq<Seq<char>>,
    field: Seq<char>,
)
    requires
        dep is Table,
    ensures
        toml::lookup(manifest::stripped_dep(dep, name, members), field) == if field == "path"@ {
            if members.contains(name) {
                Some(Toml::Text("../"@ + name))
            } else {
                None
            }
        } else if field == "registry"@ && members.contains(name) {
            None
        } else {
            toml::lookup(dep, field)
        },
{
    names_differ();
    if members.contains(name) {
        let set = toml::with_key(dep, "path"@, Toml::Text("../"@ + name));
        toml::lookup_without_key(set, "registry"@, field);
        toml::lookup_with_key(dep, "path"@, Toml::Text("../"@ + name), field);
    } else {
        toml::lookup_without_key(dep, "path"@, field);
    }
}

/// A dependency that is not a table (`serde = "1.0"`) is left alone.
pub proof fn stripped_dep_plain(dep: Toml, name: Seq<char>, members: Seq<Seq<char>>)
    requires
        !(dep is Table),
    ensures
        manifest::stripped_dep(dep, name, members) == dep,
{
}

proof fn stripped_dep_settled(dep: Toml, name: Seq<char>, members: Seq<Seq<char>>)
    ensures
        manifest::stripped_dep(manifest::stripped_dep(dep, name, members), name, members)
            == manifest::stripped_dep(dep, name, members),
{
    names_differ();
    if dep is Table {
        let once = manifest::stripped_dep(dep, name, members);
        stripped_dep_fields(dep, name, members, "path"@);
        stripped_dep_fields(dep, name, members, "registry"@);
        if members.contains(name) {
            toml::with_same_value(once, "path"@, Toml::Text("../"@ + name));
            toml::without_absent_key(once, "registry"@);
        } else {
            toml::without_absent_key(once, "path"@);
        }
    }
}

proof fn lookup_mapped(e: Entries, f: spec_fn(Seq<char>, Toml) -> Toml, key: Seq<char>)
    ensures
        toml::lookup(
            Toml::Table(e.map_values(|entry: (Seq<char>, Toml)| (entry.0, f(entry.0, entry.1)))),
            key,
        ) == match toml::lookup(Toml::Table(e), key) {
            Some(value) => Some(f(key, value)),
            None => None,
        },
{
    let mapped = e.map_values(|entry: (Seq<char>, Toml)| (entry.0, f(entry.0, entry.1)));
    toml::entry_index_finds(e, key);
    toml::entry_index_finds(mapped, key);
    let p = toml::entry_index(e, key);
    let q = toml::entry_index(mapped, key);
    if p < q {
        assert(mapped[p].0 == e[p].0);
    } else if q < p {
        assert(mapped[q].0 == e[q].0);
    }
}

/// Stripping a section strips each of its dependencies and adds or drops none.
pub proof fn stripped_section_deps(section: Toml, members: Seq<Seq<char>>, name: Seq<char>)
    ensures
        toml::lookup(manifest::stripped_section(section, members), name) == match toml::lookup(
            section,
            name,
        ) {
            Some(dep) => Some(manifest::stripped_dep(dep, name, members)),
            None => None,
        },
{
    if let Toml::Table(e) = section {
        let f = |key: Seq<char>, dep: Toml| manifest::stripped_dep(dep, key, members);
        lookup_mapped(e, f, name);
        assert(e.map_values(|entry: (Seq<char>, Toml)| (entry.0, f(entry.0, entry.1)))
            =~= manifest::stripped_section(section, members)->Table_0);
    }
}

proof fn stripped_section_settled(section: Toml, members: Seq<Seq<char>>)
    ensures
        manifest::stripped_section(manifest::stripped_section(section, members), members)
            == manifest::stripped_section(section, members),
{
    if let Toml::Table(e) = section {
        let once = manifest::stripped_section(section, members)->Table_0;
        let twice = manifest::stripped_section(Toml::Table(once), members)->Table_0;
        assert forall|i: int| 0 <= i < e.len() implies twice[i] == #[trigger] once[i] by {
            stripped_dep_settled(e[i].1, e[i].0, members);
        }
        assert(twice =~= once);
    }
}

proof fn lookup_stripped_sections(tree: Toml, members: Seq<Seq<char>>, key: Seq<char>)
    ensures
        toml::lookup(manifest::stripped_sections(tree, members), key) == match toml::lookup(
            tree,
            key,
        ) {
            Some(value) => Some(
                if is_section(key) {
                    manifest::stripped_section(value, members)
                } else {
                    value
                },
            ),
            None => None,
        },
{
    names_differ();
    let f = |section: Toml| manifest::stripped_section(section, members);
    let one = toml::on_key(tree, "dependencies"@, f);
    let two = toml::on_key(one, "dev-dependencies"@, f);
    lookup_on_key(tree, "dependencies"@, f, key);
    lookup_on_key(one, "dev-dependencies"@, f, key);
    lookup_on_key(two, "build-dependencies"@, f, key);
}

proof fn stripped_sections_settled(tree: Toml, members: Seq<Seq<char>>)
    ensures
        manifest::stripped_sections(manifest::stripped_sections(tree, members), members)
            == manifest::stripped_sections(tree, members),
{
    let f = |section: Toml| manifest::stripped_section(section, members);
    let once = manifest::stripped_sections(tree, members);
    sections_settled(tree, members, "dependencies"@);
    sections_settled(tree, members, "dev-dependencies"@);
    sections_settled(tree, members, "build-dependencies"@);
    on_key_settled(once, "dependencies"@, f);
    on_key_settled(once, "dev-dependencies"@, f);
    on_key_settled(once, "build-dependencies"@, f);
}

proof fn sections_settled(tree: Toml, members: Seq<Seq<char>>, key: Seq<char>)
    requires
        is_section(key),
    ensures
        toml::lookup(manifest::stripped_sections(tree, members), key) matches Some(value)
            ==> manifest::stripped_section(value, members) == value,
{
    lookup_stripped_sections(tree, members, key);
    if let Some(value) = toml::lookup(tree, key) {
        stripped_section_settled(value, members);
    }
}

/// What stripping makes of a manifest, key by key: its three sections are stripped, the
/// sections of its platforms are, and everything else stays.
pub proof fn stripped_manifest_keys(tree: Toml, members: Seq<Seq<char>>, key: Seq<char>)
    ensures
        toml::lookup(manifest::stripped_manifest(tree, members), key) == match toml::lookup(
            tree,
            key,
        ) {
            Some(value) => Some(
                if is_section(key) {
                    manifest::stripped_section(value, members)
                } else if key == "target"@ {
                    manifest::stripped_targets(value, members)
                } else {
                    value
                },
            ),
            None => None,
        },
{
    names_differ();
    let g = |targets: Toml| manifest::stripped_targets(targets, members);
    lookup_stripped_sections(tree, members, key);
    lookup_on_key(manifest::stripped_sections(tree, members), "target"@, g, key);
}

/// What stripping makes of the platforms, platform by platform and section by section.
pub proof fn stripped_target_keys(
    targets: Toml,
    members: Seq<Seq<char>>,
    platform: Seq<char>,
    key: Seq<char>,
)
    ensures
        manifest::lookup_in(manifest::stripped_targets(targets, members), platform, key)
            == match manifest::lookup_in(targets, platform, key) {
            Some(value) => Some(
                if is_section(key) {
                    manifest::stripped_section(value, members)
                } else {
                    value
                },
            ),
            None => None,
        },
{
    if let Toml::Table(e) = targets {
        let f = |name: Seq<char>, tree: Toml| manifest::stripped_sections(tree, members);
        lookup_mapped(e, f, platform);
        assert(e.map_values(|entry: (Seq<char>, Toml)| (entry.0, f(entry.0, entry.1)))
            =~= manifest::stripped_targets(targets, members)->Table_0);
        if let Some(value) = toml::lookup(targets, platform) {
            lookup_stripped_sections(value, members, key);
        }
    }
}

/// Stripping a manifest a second time changes nothing.
pub proof fn strip_is_idempotent(tree: Toml, members: Seq<Seq<char>>)
    ensures
        manifest::stripped_manifest(manifest::stripped_manifest(tree, members), members)
            == manifest::stripped_manifest(tree, members),
{
    names_differ();
    let f = |section: Toml| manifest::stripped_section(section, members);
    let g = |targets: Toml| manifest::stripped_targets(targets, members);
    let once = manifest::stripped_manifest(tree, members);
    let sections = manifest::stripped_sections(tree, members);
    sections_settled(tree, members, "dependencies"@);
    sections_settled(tree, members, "dev-dependencies"@);
    sections_settled(tree, members, "build-dependencies"@);
    lookup_on_key(sections, "target"@, g, "dependencies"@);
    lookup_on_key(sections, "target"@, g, "dev-dependencies"@);
    lookup_on_key(sections, "target"@, g, "build-dependencies"@);
    lookup_on_key(sections, "target"@, g, "target"@);
    on_key_settled(once, "dependencies"@, f);
    on_key_settled(once, "dev-dependencies"@, f);
    on_key_settled(once, "build-dependencies"@, f);
    if let Some(targets) = toml::lookup(sections, "target"@) {
        if let Toml::Table(e) = targets {
            let one = manifest::stripped_targets(targets, members)->Table_0;
            let two = manifest::stripped_targets(Toml::Table(one), members)->Table_0;
            assert forall|i: int| 0 <= i < e.len() implies two[i] == #[trigger] one[i] by {
                stripped_sections_settled(e[i].1, members);
            }
            assert(two =~= one);
        }
    }
    on_key_settled(once, "target"@, g);
}

/// The workspace of the target after the version is set.
proof fn versioned_workspace(src: Toml, dst: Toml, key: Seq<char>, field: Seq<char>)
    ensures
        key != "workspace"@ ==> toml::lookup(manifest::versioned(src, dst), key) == toml::lookup(
            dst,
            key,
        ),
        field != "package"@ ==> manifest::lookup_in(
            manifest::versioned(src, dst),
            "workspace"@,
            field,
        ) == manifest::lookup_in(dst, "workspace"@, field),
        manifest::is_a_table(toml::lookup(dst, "workspace"@)) <==> manifest::is_a_table(
            toml::lookup(manifest::versioned(src, dst), "workspace"@),
        ),
        toml::lookup(dst, "workspace"@) is Some <==> toml::lookup(
            manifest::versioned(src, dst),
            "workspace"@,
        ) is Some,
        manifest::lookup_in(manifest::versioned(src, dst), "workspace"@, "package"@)
            == match manifest::lookup_in(dst, "workspace"@, "package"@) {
            Some(package) => Some(
                match manifest::workspace_version(src) {
                    Some(version) => toml::with_key(package, "version"@, Toml::Text(version)),
                    None => package,
                },
            ),
            None => None,
        },
{
    if let Some(version) = manifest::workspace_version(src) {
        let g = |package: Toml| toml::with_key(package, "version"@, Toml::Text(version));
        let f = |ws: Toml| toml::on_key(ws, "package"@, g);
        lookup_on_key(dst, "workspace"@, f, key);
        lookup_on_key(dst, "workspace"@, f, "workspace"@);
        if let Some(ws) = toml::lookup(dst, "workspace"@) {
            lookup_on_key(ws, "package"@, g, field);
            lookup_on_key(ws, "package"@, g, "package"@);
        }
        assert(manifest::versioned(src, dst) == toml::on_key(dst, "workspace"@, f));
    }
}

/// The workspace of the target after the dependencies are merged.
proof fn merged_workspace(src: Toml, dst: Toml, key: Seq<char>, field: Seq<char>)
    ensures
        key != "workspace"@ ==> toml::lookup(manifest::with_merged_deps(src, dst), key)
            == toml::lookup(dst, key),
        field != "dependencies"@ ==> manifest::lookup_in(
            manifest::with_merged_deps(src, dst),
            "workspace"@,
            field,
        ) == manifest::lookup_in(dst, "workspace"@, field),
        toml::lookup(dst, "workspace"@) is Some <==> toml::lookup(
            manifest::with_merged_deps(src, dst),
            "workspace"@,
        ) is Some,
        manifest::is_a_table(toml::lookup(dst, "workspace"@)) <==> manifest::is_a_table(
            toml::lookup(manifest::with_merged_deps(src, dst), "workspace"@),
        ),
        manifest::is_a_table(toml::lookup(dst, "workspace"@)) && manifest::is_a_table(
            manifest::lookup_in(src, "workspace"@, "dependencies"@),
        ) ==> manifest::lookup_in(
            manifest::with_merged_deps(src, dst),
            "workspace"@,
            "dependencies"@,
        ) == Some(
            Toml::Table(
                manifest::merged_deps(
                    manifest::lookup_in(src, "workspace"@, "dependencies"@)->Some_0->Table_0,
                    toml::entries_of(
                        manifest::lookup_in(dst, "workspace"@, "dependencies"@),
                    ),
                    manifest::workspace_members(src),
                ),
            ),
        ),
{
    if let Some(Toml::Table(e)) = manifest::lookup_in(src, "workspace"@, "dependencies"@) {
        let d = toml::entries_of(manifest::lookup_in(dst, "workspace"@, "dependencies"@));
        let merged = Toml::Table(manifest::merged_deps(e, d, manifest::workspace_members(src)));
        let f = |ws: Toml| toml::with_key(ws, "dependencies"@, merged);
        lookup_on_key(dst, "workspace"@, f, key);
        lookup_on_key(dst, "workspace"@, f, "workspace"@);
        if let Some(ws) = toml::lookup(dst, "workspace"@) {
            if ws is Table {
                toml::lookup_with_key(ws, "dependencies"@, merged, field);
                toml::lookup_with_key(ws, "dependencies"@, merged, "dependencies"@);
            }
        }
        assert(manifest::with_merged_deps(src, dst) == toml::on_key(dst, "workspace"@, f));
    }
}

/// The target after the patches are replaced.
proof fn patched_keys(src: Toml, dst: Toml, key: Seq<char>)
    requires
        dst is Table,
    ensures
        toml::lookup(manifest::with_patches(src, dst), key) == if key == "patch"@ {
            if toml::entries_of(toml::lookup(src, "patch"@)).len() == 0 {
                None
            } else {
                toml::lookup(src, "patch"@)
            }
        } else {
            toml::lookup(dst, key)
        },
{
    let e = toml::entries_of(toml::lookup(src, "patch"@));
    let bare = toml::without_key(dst, "patch"@);
    toml::lookup_without_key(dst, "patch"@, key);
    if e.len() > 0 {
        toml::lookup_with_key(bare, "patch"@, Toml::Table(e), key);
    }
}

/// Everything at the root of the target other than its workspace and its patches, such as
/// its profiles, is left alone.
pub proof fn transform_keeps_root(src: Toml, dst: Toml, key: Seq<char>)
    requires
        dst is Table,
        key != "workspace"@,
        key != "patch"@,
    ensures
        toml::lookup(manifest::transformed_root(src, dst), key) == toml::lookup(dst, key),
{
    let one = manifest::versioned(src, dst);
    let two = manifest::with_merged_deps(src, one);
    versioned_workspace(src, dst, key, key);
    merged_workspace(src, one, key, key);
    patched_keys(src, two, key);
}

/// Everything in the target's workspace other than `package` and `dependencies`, such as
/// `members` and `default-members`, is left alone.
pub proof fn transform_keeps_workspace(src: Toml, dst: Toml, field: Seq<char>)
    requires
        dst is Table,
        field != "package"@,
        field != "dependencies"@,
    ensures
        manifest::lookup_in(manifest::transformed_root(src, dst), "workspace"@, field)
            == manifest::lookup_in(dst, "workspace"@, field),
{
    names_differ();
    let one = manifest::versioned(src, dst);
    let two = manifest::with_merged_deps(src, one);
    versioned_workspace(src, dst, "workspace"@, field);
    merged_workspace(src, one, "workspace"@, field);
    patched_keys(src, two, "workspace"@);
}

/// Where the source has a version and the target a `[workspace.package]` table, the
/// target's version is the source's afterwards; the package's other fields stay.
pub proof fn transform_takes_version(src: Toml, dst: Toml, field: Seq<char>)
    requires
        dst is Table,
        manifest::workspace_version(src) is Some,
        manifest::is_a_table(manifest::lookup_in(dst, "workspace"@, "package"@)),
    ensures
        manifest::workspace_version(manifest::transformed_root(src, dst))
            == manifest::workspace_version(src),
        field != "version"@ ==> toml::lookup(
            manifest::lookup_in(
                manifest::transformed_root(src, dst),
                "workspace"@,
                "package"@,
            )->Some_0,
            field,
        ) == toml::lookup(
            manifest::lookup_in(dst, "workspace"@, "package"@)->Some_0,
            field,
        ),
{
    names_differ();
    let one = manifest::versioned(src, dst);
    let two = manifest::with_merged_deps(src, one);
    versioned_workspace(src, dst, "workspace"@, "package"@);
    merged_workspace(src, one, "workspace"@, "package"@);
    patched_keys(src, two, "workspace"@);
    let package = manifest::lookup_in(dst, "workspace"@, "package"@)->Some_0;
    let version = Toml::Text(manifest::workspace_version(src)->Some_0);
    toml::lookup_with_key(package, "version"@, version, "version"@);
    toml::lookup_with_key(package, "version"@, version, field);
}

/// Where the source has workspace dependencies and the target a workspace table, the
/// target's dependencies are afterwards the source's, each made fit, then those that only
/// the target had.
pub proof fn transform_merges_deps(src: Toml, dst: Toml)
    requires
        dst is Table,
        manifest::is_a_table(toml::lookup(dst, "workspace"@)),
        manifest::is_a_table(manifest::lookup_in(src, "workspace"@, "dependencies"@)),
    ensures
        manifest::lookup_in(
            manifest::transformed_root(src, dst),
            "workspace"@,
            "dependencies"@,
        ) == Some(
            Toml::Table(
                manifest::merged_deps(
                    manifest::lookup_in(src, "workspace"@, "dependencies"@)->Some_0->Table_0,
                    toml::entries_of(
                        manifest::lookup_in(dst, "workspace"@, "dependencies"@),
                    ),
                    manifest::workspace_members(src),
                ),
            ),
        ),
{
    names_differ();
    let one = manifest::versioned(src, dst);
    let two = manifest::with_merged_deps(src, one);
    versioned_workspace(src, dst, "workspace"@, "dependencies"@);
    merged_workspace(src, one, "workspace"@, "dependencies"@);
    patched_keys(src, two, "workspace"@);
}

/// The package of the target's workspace afterwards.
pub proof fn transform_package(src: Toml, dst: Toml)
    requires
        dst is Table,
    ensures
        manifest::lookup_in(manifest::transformed_root(src, dst), "workspace"@, "package"@)
            == match manifest::lookup_in(dst, "workspace"@, "package"@) {
            Some(package) => Some(
                match manifest::workspace_version(src) {
                    Some(version) => toml::with_key(package, "version"@, Toml::Text(version)),
                    None => package,
                },
            ),
            None => None,
        },
{
    names_differ();
    let one = manifest::versioned(src, dst);
    let two = manifest::with_merged_deps(src, one);
    versioned_workspace(src, dst, "workspace"@, "package"@);
    merged_workspace(src, one, "workspace"@, "package"@);
    patched_keys(src, two, "workspace"@);
}

/// A workspace of the target that is no table stays as it is.
pub proof fn transform_keeps_odd_workspace(src: Toml, dst: Toml)
    requires
        dst is Table,
        !manifest::is_a_table(toml::lookup(dst, "workspace"@)),
    ensures
        toml::lookup(manifest::transformed_root(src, dst), "workspace"@) == toml::lookup(
            dst,
            "workspace"@,
        ),
{
    names_differ();
    let one = manifest::versioned(src, dst);
    let two = manifest::with_merged_deps(src, one);
    if let Some(version) = manifest::workspace_version(src) {
        let g = |package: Toml| toml::with_key(package, "version"@, Toml::Text(version));
        let f = |ws: Toml| toml::on_key(ws, "package"@, g);
        lookup_on_key(dst, "workspace"@, f, "workspace"@);
        assert(one == toml::on_key(dst, "workspace"@, f));
    }
    if let Some(Toml::Table(e)) = manifest::lookup_in(src, "workspace"@, "dependencies"@) {
        let d = toml::entries_of(manifest::lookup_in(one, "workspace"@, "dependencies"@));
        let merged = Toml::Table(manifest::merged_deps(e, d, manifest::workspace_members(src)));
        let f = |ws: Toml| toml::with_key(ws, "dependencies"@, merged);
        lookup_on_key(one, "workspace"@, f, "workspace"@);
        assert(two == toml::on_key(one, "workspace"@, f));
    }
    patched_keys(src, two, "workspace"@);
}

/// The patches of the target afterwards.
pub proof fn transform_patch(src: Toml, dst: Toml)
    requires
        dst is Table,
    ensures
        toml::lookup(manifest::transformed_root(src, dst), "patch"@) == if toml::entries_of(
            toml::lookup(src, "patch"@),
        ).len() == 0 {
            None
        } else {
            toml::lookup(src, "patch"@)
        },
{
    patched_keys(src, manifest::with_merged_deps(src, manifest::versioned(src, dst)), "patch"@);
}

/// Where the source has no workspace dependencies, the target keeps its own.
pub proof fn transform_without_source_deps(src: Toml, dst: Toml)
    requires
        dst is Table,
        !manifest::is_a_table(manifest::lookup_in(src, "workspace"@, "dependencies"@)),
    ensures
        manifest::lookup_in(
            manifest::transformed_root(src, dst),
            "workspace"@,
            "dependencies"@,
        ) == manifest::lookup_in(dst, "workspace"@, "dependencies"@),
{
    names_differ();
    let one = manifest::versioned(src, dst);
    versioned_workspace(src, dst, "workspace"@, "dependencies"@);
    patched_keys(src, one, "workspace"@);
}

/// The merged dependencies, name by name: what the source has is taken from it, made fit;
/// what only the target has is kept as it is; there is nothing else.
pub proof fn merged_dep_by_name(
    src: Entries,
    dst: Entries,
    members: Seq<Seq<char>>,
    name: Seq<char>,
)
    ensures
        toml::lookup(Toml::Table(manifest::merged_deps(src, dst, members)), name)
            == match toml::lookup(Toml::Table(src), name) {
            Some(dep) => Some(manifest::rewritten_dep(dep, name, members)),
            None => toml::lookup(Toml::Table(dst), name),
        },
{
    let f = |key: Seq<char>, dep: Toml| manifest::rewritten_dep(dep, key, members);
    let fit = src.map_values(|entry: (Seq<char>, Toml)| (entry.0, f(entry.0, entry.1)));
    assert(fit =~= src.map_values(
        |entry: (Seq<char>, Toml)| (entry.0, manifest::rewritten_dep(entry.1, entry.0, members)),
    ));
    let extra = manifest::only_in(dst, src);
    lookup_mapped(src, f, name);
    lookup_appended(fit, extra, name);
    lookup_only_in(dst, src, name);
}

proof fn lookup_appended(a: Entries, b: Entries, key: Seq<char>)
    ensures
        toml::lookup(Toml::Table(a + b), key) == match toml::lookup(Toml::Table(a), key) {
            Some(value) => Some(value),
            None => toml::lookup(Toml::Table(b), key),
        },
{
    let all = a + b;
    toml::entry_index_finds(a, key);
    toml::entry_index_finds(b, key);
    toml::entry_index_finds(all, key);
    let p = toml::entry_index(a, key);
    let q = toml::entry_index(b, key);
    let r = toml::entry_index(all, key);
    if p < a.len() {
        assert(all[p] == a[p]);
        if r < p {
            assert(all[r] == a[r]);
        }
    } else {
        if r < a.len() {
            assert(all[r] == a[r]);
        }
        if q < b.len() {
            assert(all[a.len() + q] == b[q]);
            if r < a.len() + q {
                assert(all[r] == b[r - a.len()]);
            }
        } else if r < all.len() {
            assert(all[r] == b[r - a.len()]);
        }
    }
}

proof fn lookup_only_in(dst: Entries, src: Entries, key: Seq<char>)
    ensures
        toml::lookup(Toml::Table(manifest::only_in(dst, src)), key) == if toml::has_key(src, key) {
            None
        } else {
            toml::lookup(Toml::Table(dst), key)
        },
    decreases dst.len(),
{
    reveal(Seq::filter);
    let pred = |entry: (Seq<char>, Toml)| !toml::has_key(src, entry.0);
    if dst.len() > 0 {
        let rest = dst.drop_last();
        let last = seq![dst.last()];
        lookup_only_in(rest, src, key);
        assert(dst =~= rest + last);
        lookup_appended(rest, last, key);
        lookup_appended(manifest::only_in(rest, src), last, key);
        toml::entry_index_finds(last, key);
        if pred(dst.last()) {
            assert(manifest::only_in(dst, src) =~= manifest::only_in(rest, src) + last);
        } else {
            assert(manifest::only_in(dst, src) =~= manifest::only_in(rest, src));
        }
    }
}

/// A rewritten dependency, field by field: one on a member points into `apps/`, any other
/// has no path; every other field stays.
pub proof fn rewritten_dep_fields(
    dep: Toml,
    name: Seq<char>,
    members: Seq<Seq<char>>,
    field: Seq<char>,
)
    requires
        dep is Table,
    ensures
        toml::lookup(manifest::rewritten_dep(dep, name, members), field) == if field == "path"@ {
            if members.contains(name) {
                Some(Toml::Text("apps/"@ + name))
            } else {
                None
            }
        } else {
            toml::lookup(dep, field)
        },
{
    if members.contains(name) {
        toml::lookup_with_key(dep, "path"@, Toml::Text("apps/"@ + name), field);
    } else {
        toml::lookup_without_key(dep, "path"@, field);
    }
}

/// The patches of the target are afterwards those of the source, and none if the source
/// has none.
pub proof fn transform_takes_patches(src: Toml, dst: Toml)
    requires
        dst is Table,
    ensures
        toml::entries_of(toml::lookup(manifest::transformed_root(src, dst), "patch"@))
            == toml::entries_of(toml::lookup(src, "patch"@)),
        toml::entries_of(toml::lookup(src, "patch"@)).len() == 0 ==> toml::lookup(
            manifest::transformed_root(src, dst),
            "patch"@,
        ) is None,
{
    let one = manifest::versioned(src, dst);
    let two = manifest::with_merged_deps(src, one);
    patched_keys(src, two, "patch"@);
    assert(toml::entries_of(toml::lookup(manifest::transformed_root(src, dst), "patch"@))
        =~= toml::entries_of(toml::lookup(src, "patch"@)));
}

proof fn only_in_settled(src: Entries, dst: Entries, members: Seq<Seq<char>>)
    ensures
        manifest::only_in(manifest::merged_deps(src, dst, members), src) == manifest::only_in(
            dst,
            src,
        ),
{
    let pred = |entry: (Seq<char>, Toml)| !toml::has_key(src, entry.0);
    let fit = src.map_values(
        |entry: (Seq<char>, Toml)| (entry.0, manifest::rewritten_dep(entry.1, entry.0, members)),
    );
    assert forall|i: int| 0 <= i < fit.len() implies !pred(#[trigger] fit[i]) by {
        toml::entry_index_finds(src, src[i].0);
        assert(toml::keys(src)[i] == src[i].0);
    }
    filter_none(fit, pred);
    filter_appended(fit, manifest::only_in(dst, src), pred);
    filter_twice(dst, pred);
    assert(Seq::<(Seq<char>, Toml)>::empty() + dst.filter(pred) =~= dst.filter(pred));
}

proof fn filter_none(s: Entries, pred: spec_fn((Seq<char>, Toml)) -> bool)
    requires
        forall|i: int| 0 <= i < s.len() ==> !pred(#[trigger] s[i]),
    ensures
        s.filter(pred) == Seq::<(Seq<char>, Toml)>::empty(),
    decreases s.len(),
{
    reveal(Seq::filter);
    if s.len() > 0 {
        assert(!pred(s[s.len() - 1]));
        filter_none(s.drop_last(), pred);
    }
}

/// What is left of two lists is what is left of each.
pub proof fn filter_appended(a: Entries, b: Entries, pred: spec_fn((Seq<char>, Toml)) -> bool)
    ensures
        (a + b).filter(pred) == a.filter(pred) + b.filter(pred),
    decreases b.len(),
{
    reveal(Seq::filter);
    if b.len() == 0 {
        assert(a + b =~= a);
        assert(a.filter(pred) + b.filter(pred) =~= a.filter(pred));
    } else {
        filter_appended(a, b.drop_last(), pred);
        assert((a + b).drop_last() =~= a + b.drop_last());
        assert((a + b).filter(pred) =~= a.filter(pred) + b.filter(pred));
    }
}

proof fn filter_twice(s: Entries, pred: spec_fn((Seq<char>, Toml)) -> bool)
    ensures
        s.filter(pred).filter(pred) == s.filter(pred),
    decreases s.len(),
{
    reveal(Seq::filter);
    if s.len() > 0 {
        let rest = s.drop_last();
        filter_twice(rest, pred);
        if pred(s.last()) {
            assert(s.filter(pred).drop_last() =~= rest.filter(pred));
        }
    }
}

/// Merging the same source into the target a second time changes nothing.
pub proof fn transform_is_idempotent(src: Toml, dst: Toml)
    requires
        dst is Table,
    ensures
        manifest::transformed_root(src, manifest::transformed_root(src, dst))
            == manifest::transformed_root(src, dst),
{
    names_differ();
    let one = manifest::versioned(src, dst);
    let two = manifest::with_merged_deps(src, one);
    let done = manifest::transformed_root(src, dst);
    versioned_workspace(src, dst, "workspace"@, "dependencies"@);
    merged_workspace(src, one, "workspace"@, "package"@);
    patched_keys(src, two, "workspace"@);
    patched_keys(src, two, "patch"@);
    // The version is in place already.
    if let Some(version) = manifest::workspace_version(src) {
        let g = |package: Toml| toml::with_key(package, "version"@, Toml::Text(version));
        let f = |ws: Toml| toml::on_key(ws, "package"@, g);
        if let Some(ws) = toml::lookup(done, "workspace"@) {
            if let Some(package) = toml::lookup(ws, "package"@) {
                let old_package = manifest::lookup_in(dst, "workspace"@, "package"@)->Some_0;
                toml::with_key_again(
                    old_package,
                    "version"@,
                    Toml::Text(version),
                    Toml::Text(version),
                );
            }
            on_key_settled(ws, "package"@, g);
        }
        on_key_settled(done, "workspace"@, f);
        assert(manifest::versioned(src, done) == toml::on_key(done, "workspace"@, f));
    }
    assert(manifest::versioned(src, done) == done);
    // So are the dependencies.
    if let Some(Toml::Table(e)) = manifest::lookup_in(src, "workspace"@, "dependencies"@) {
        let members = manifest::workspace_members(src);
        let d = toml::entries_of(manifest::lookup_in(one, "workspace"@, "dependencies"@));
        let merged = manifest::merged_deps(e, d, members);
        if manifest::is_a_table(toml::lookup(done, "workspace"@)) {
            only_in_settled(e, d, members);
            assert(manifest::merged_deps(e, merged, members) =~= merged);
        }
        let again = toml::entries_of(manifest::lookup_in(done, "workspace"@, "dependencies"@));
        let value = Toml::Table(manifest::merged_deps(e, again, members));
        let f = |ws: Toml| toml::with_key(ws, "dependencies"@, value);
        if let Some(ws) = toml::lookup(done, "workspace"@) {
            if ws is Table {
                toml::with_same_value(ws, "dependencies"@, value);
            }
        }
        on_key_settled(done, "workspace"@, f);
        assert(manifest::with_merged_deps(src, done) == toml::on_key(done, "workspace"@, f));
    }
    assert(manifest::with_merged_deps(src, done) == done);
    // And the patches, which stand at the end.
    let bare = toml::without_key(two, "patch"@);
    toml::lookup_without_key(two, "patch"@, "patch"@);
    let e = toml::entries_of(toml::lookup(src, "patch"@));
    if e.len() > 0 {
        toml::without_appended_key(bare, "patch"@, Toml::Table(e));
    } else {
        toml::without_absent_key(bare, "patch"@);
    }
}

/// The FSL registry of a configuration, and everything else in it, after it was ensured:
/// one that was there is kept whatever its index is, and no other key is touched.
pub proof fn registry_ensured(config: Toml, key: Seq<char>, registry: Seq<char>)
    requires
        config is Table,
        manifest::with_fsl_registry(config) is Some,
    ensures
        ({
            let out = manifest::with_fsl_registry(config)->Some_0;
            let had = manifest::lookup_in(config, "registries"@, "fsl"@);
            &&& manifest::lookup_in(out, "registries"@, "fsl"@) == match had {
                Some(fsl) => Some(fsl),
                None => Some(
                    Toml::Table(seq![("index"@, Toml::Text(manifest::fsl_index()))]),
                ),
            }
            &&& key != "registries"@ ==> toml::lookup(out, key) == toml::lookup(config, key)
            &&& registry != "fsl"@ ==> manifest::lookup_in(out, "registries"@, registry)
                == manifest::lookup_in(config, "registries"@, registry)
        }),
{
    let fsl = Toml::Table(seq![("index"@, Toml::Text(manifest::fsl_index()))]);
    match toml::lookup(config, "registries"@) {
        None => {
            let one = Toml::Table(seq![("fsl"@, fsl)]);
            toml::lookup_with_key(config, "registries"@, one, key);
            toml::lookup_with_key(config, "registries"@, one, "registries"@);
            assert(toml::with_entry(Seq::empty(), "fsl"@, fsl) =~= seq![("fsl"@, fsl)]);
            toml::lookup_with_key(Toml::Table(Seq::empty()), "fsl"@, fsl, "fsl"@);
            toml::lookup_with_key(Toml::Table(Seq::empty()), "fsl"@, fsl, registry);
        },
        Some(Toml::Table(e)) => {
            if !toml::has_key(e, "fsl"@) {
                let more = Toml::Table(e.push(("fsl"@, fsl)));
                toml::lookup_with_key(config, "registries"@, more, key);
                toml::lookup_with_key(config, "registries"@, more, "registries"@);
                toml::lookup_with_key(Toml::Table(e), "fsl"@, fsl, "fsl"@);
                toml::lookup_with_key(Toml::Table(e), "fsl"@, fsl, registry);
            }
        },
        Some(_) => {},
    }
}

/// Ensuring the FSL registry a second time changes nothing.
pub proof fn registry_is_idempotent(config: Toml)
    requires
        config is Table,
        manifest::with_fsl_registry(config) is Some,
    ensures
        manifest::with_fsl_registry(manifest::with_fsl_registry(config)->Some_0)
            == manifest::with_fsl_registry(config),
{
    registry_ensured(config, "registries"@, "fsl"@);
}

/// What is reported as skipped leaves the target as it was: its `workspace.package` where that is
/// the version, its `workspace.dependencies` where those are the dependencies. A version that is
/// not reported as skipped arrives.
pub proof fn skipped_parts_are_left_alone(src: Toml, dst: Toml)
    requires
        dst is Table,
    ensures
        ({
            let out = manifest::transformed_root(src, dst);
            let skipped = manifest::skipped(src, dst);
            &&& skipped.version ==> manifest::lookup_in(out, "workspace"@, "package"@)
                == manifest::lookup_in(dst, "workspace"@, "package"@)
            &&& skipped.dependencies ==> manifest::lookup_in(out, "workspace"@, "dependencies"@)
                == manifest::lookup_in(dst, "workspace"@, "dependencies"@)
            &&& manifest::workspace_version(src) is Some && !skipped.version
                ==> manifest::workspace_version(out) == manifest::workspace_version(src)
        }),
{
    names_differ();
    let one = manifest::versioned(src, dst);
    let two = manifest::with_merged_deps(src, one);
    versioned_workspace(src, dst, "workspace"@, "package"@);
    merged_workspace(src, one, "workspace"@, "package"@);
    patched_keys(src, two, "workspace"@);
    if manifest::workspace_version(src) is Some && !manifest::skipped(src, dst).version {
        transform_takes_version(src, dst, "version"@);
    }
}

} // verus!
