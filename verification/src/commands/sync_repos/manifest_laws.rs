//! What the edits to `Cargo.toml` files and to Cargo's configuration do to the values at each
//! place of a file.
use vstd::prelude::*;

use super::laws;
use super::manifest;
use super::toml;
use super::toml::{Entries, Toml};
use crate::text;
use crate::text_laws;

verus! {

/// What stands under `key` of what was found, if anything was.
pub open spec fn within(found: Option<Toml>, key: Seq<char>) -> Option<Toml> {
    match found {
        Some(tree) => toml::lookup(tree, key),
        None => None,
    }
}

/// The first entry of a name is the one that is found, and none is found where none has the
/// name.
pub proof fn first_entry_is_found(before: Entries, key: Seq<char>, value: Toml, after: Entries)
    requires
        forall|j: int| 0 <= j < before.len() ==> (#[trigger] before[j]).0 != key,
    ensures
        toml::lookup(Toml::Table(before + seq![(key, value)] + after), key) == Some(value),
        toml::lookup(Toml::Table(before), key) is None,
{
    let all = before + seq![(key, value)] + after;
    let p = before.len() as int;
    toml::entry_index_finds(all, key);
    assert(all[p] == (key, value));
    assert(toml::keys(all)[p] == key);
    let q = toml::entry_index(all, key);
    if q < p {
        assert(all[q] == before[q]);
    }
    toml::entry_index_finds(before, key);
}

/// Only a table has entries.
pub proof fn only_tables_have_entries(tree: Toml, key: Seq<char>)
    ensures
        !(tree is Table) ==> toml::lookup(tree, key) is None,
{
}

/// `name` is the last component of `path`.
pub open spec fn is_last_component(path: Seq<char>, name: Seq<char>) -> bool {
    let start = path.len() - name.len();
    &&& !name.contains('/')
    &&& start >= 0
    &&& path.skip(start) == name
    &&& start > 0 ==> path[start - 1] == '/'
}

/// Some member of the workspace of `tree` is a path that ends in `name`.
pub open spec fn lists(tree: Toml, name: Seq<char>) -> bool {
    match within(toml::lookup(tree, "workspace"@), "members"@) {
        Some(Toml::Array(elements)) => exists|i: int|
            0 <= i < elements.len() && is_member(#[trigger] elements[i], name),
        _ => false,
    }
}

/// An element of a list of members is a path that ends in `name`.
pub open spec fn is_member(element: Toml, name: Seq<char>) -> bool {
    match element {
        Toml::Text(path) => is_last_component(path, name),
        _ => false,
    }
}

proof fn after_last_slash(path: Seq<char>, name: Seq<char>)
    ensures
        text::after_last(path, '/') == name <==> is_last_component(path, name),
{
    let n = text::after_last(path, '/');
    text_laws::after_last_is_the_rest(path, '/');
    let start = path.len() - n.len();
    assert(is_last_component(path, n));
    if is_last_component(path, name) {
        let s = path.len() - name.len();
        if s > start {
            assert(path[s - 1] == n[s - 1 - start]);
            assert(n.contains('/'));
        } else if s < start {
            assert(path[start - 1] == name[start - 1 - s]);
            assert(name.contains('/'));
        }
        assert(s == start);
    }
}

proof fn named_members(elements: Seq<Toml>, name: Seq<char>)
    ensures
        manifest::member_names(elements).contains(name) <==> exists|i: int|
            0 <= i < elements.len() && is_member(#[trigger] elements[i], name),
    decreases elements.len(),
{
    let names = manifest::member_names(elements);
    if elements.len() > 0 {
        let rest = elements.drop_last();
        let n = elements.len() - 1;
        named_members(rest, name);
        let front = manifest::member_names(rest);
        if let Toml::Text(path) = elements.last() {
            after_last_slash(path, name);
            assert(names == front.push(text::after_last(path, '/')));
            if names.contains(name) {
                let k = choose|k: int| 0 <= k < names.len() && names[k] == name;
                if k < front.len() {
                    assert(front[k] == name);
                }
            }
            if front.contains(name) {
                let k = choose|k: int| 0 <= k < front.len() && front[k] == name;
                assert(names[k] == name);
            }
            if is_last_component(path, name) {
                assert(names[front.len() as int] == name);
                assert(is_member(elements[n], name));
            }
        }
        if front.contains(name) {
            let i = choose|i: int| 0 <= i < rest.len() && is_member(#[trigger] rest[i], name);
            assert(is_member(elements[i], name));
        }
        if exists|i: int| 0 <= i < elements.len() && is_member(#[trigger] elements[i], name) {
            let i = choose|i: int|
                0 <= i < elements.len() && is_member(#[trigger] elements[i], name);
            if i < n {
                assert(is_member(rest[i], name));
            }
        }
    }
}

/// The members of a workspace are the last components of the paths that it lists.
pub proof fn members_are_the_last_components(tree: Toml, name: Seq<char>)
    ensures
        manifest::workspace_members(tree).contains(name) <==> lists(tree, name),
{
    if let Some(Toml::Array(elements)) = within(toml::lookup(tree, "workspace"@), "members"@) {
        named_members(elements, name);
    }
}

/// What a sync makes of a dependency that the source's workspace has: the target's workspace has
/// it under its name. A version string, or anything else that is no table, is taken as it is. Of
/// a table every field is taken as it is but the path: it leads into `apps/` if the source's
/// workspace lists the name, and there is none otherwise.
pub proof fn source_dependency_arrives(
    src: Toml,
    dst: Toml,
    name: Seq<char>,
    dep: Toml,
    field: Seq<char>,
)
    requires
        dst is Table,
        toml::lookup(dst, "workspace"@) matches Some(workspace) && workspace is Table,
        within(within(toml::lookup(src, "workspace"@), "dependencies"@), name) == Some(dep),
    ensures
        ({
            let out = manifest::transformed_root(src, dst);
            let got = within(within(toml::lookup(out, "workspace"@), "dependencies"@), name);
            &&& !(dep is Table) ==> got == Some(dep)
            &&& dep is Table ==> got is Some && got->Some_0 is Table && within(got, field) == if field
                == "path"@ {
                if lists(src, name) {
                    Some(Toml::Text("apps/"@ + name))
                } else {
                    None
                }
            } else {
                toml::lookup(dep, field)
            }
        }),
{
    let out = manifest::transformed_root(src, dst);
    let members = manifest::workspace_members(src);
    let e = within(toml::lookup(src, "workspace"@), "dependencies"@)->Some_0->Table_0;
    let d = toml::entries_of(within(toml::lookup(dst, "workspace"@), "dependencies"@));
    laws::transform_merges_deps(src, dst);
    laws::merged_dep_by_name(e, d, members, name);
    members_are_the_last_components(src, name);
    if dep is Table {
        laws::rewritten_dep_fields(dep, name, members, field);
    }
}

/// A dependency that the source's workspace does not have stays in the target's as it is, or
/// absent.
pub proof fn other_dependency_stays(src: Toml, dst: Toml, name: Seq<char>)
    requires
        dst is Table,
        within(within(toml::lookup(src, "workspace"@), "dependencies"@), name) is None,
    ensures
        within(
            within(toml::lookup(manifest::transformed_root(src, dst), "workspace"@), "dependencies"@),
            name,
        ) == within(within(toml::lookup(dst, "workspace"@), "dependencies"@), name),
{
    let from = within(toml::lookup(src, "workspace"@), "dependencies"@);
    if from is Some && from->Some_0 is Table {
        if manifest::is_a_table(toml::lookup(dst, "workspace"@)) {
            let e = from->Some_0->Table_0;
            let to = within(toml::lookup(dst, "workspace"@), "dependencies"@);
            let d = toml::entries_of(to);
            laws::transform_merges_deps(src, dst);
            laws::merged_dep_by_name(e, d, manifest::workspace_members(src), name);
        } else {
            laws::skipped_parts_are_left_alone(src, dst);
        }
    } else {
        laws::transform_without_source_deps(src, dst);
    }
}

/// The merged dependencies stand in the order of the source's, and after them in the order of
/// those that only the target has.
pub proof fn merged_in_order(
    src: Entries,
    before: Entries,
    entry: (Seq<char>, Toml),
    after: Entries,
    members: Seq<Seq<char>>,
    i: int,
)
    ensures
        0 <= i < src.len() ==> manifest::merged_deps(src, before, members)[i].0 == src[i].0,
        manifest::merged_deps(src, Seq::empty(), members).len() == src.len(),
        toml::keys(src).contains(entry.0) ==> manifest::merged_deps(
            src,
            before + seq![entry] + after,
            members,
        ) == manifest::merged_deps(src, before + after, members),
        !toml::keys(src).contains(entry.0) ==> manifest::merged_deps(
            src,
            before + seq![entry],
            members,
        ) == manifest::merged_deps(src, before, members).push(entry),
{
    reveal(Seq::filter);
    let pred = |entry: (Seq<char>, Toml)| !toml::has_key(src, entry.0);
    toml::entry_index_finds(src, entry.0);
    laws::filter_appended(before + seq![entry], after, pred);
    laws::filter_appended(before, seq![entry], pred);
    laws::filter_appended(before, after, pred);
    let one = seq![entry];
    assert(one.drop_last() =~= Seq::empty());
    assert(one.drop_last().filter(pred) =~= Seq::empty());
    if toml::keys(src).contains(entry.0) {
        assert(one.filter(pred) =~= Seq::empty());
        assert((before + seq![entry] + after).filter(pred) =~= (before + after).filter(pred));
    } else {
        assert(one.filter(pred) =~= one);
        assert(manifest::merged_deps(src, before + one, members) =~= manifest::merged_deps(
            src,
            before,
            members,
        ).push(entry));
    }
}

/// A dependency of the source's workspace, entry by entry: nothing but its path is touched, which
/// is set where it stands, or at the end, or taken out.
pub proof fn rewritten_entry_by_entry(
    before: Entries,
    path: Toml,
    after: Entries,
    name: Seq<char>,
    members: Seq<Seq<char>>,
)
    requires
        forall|j: int| 0 <= j < before.len() ==> (#[trigger] before[j]).0 != "path"@,
        forall|j: int| 0 <= j < after.len() ==> (#[trigger] after[j]).0 != "path"@,
    ensures
        ({
            let with = Toml::Table(before + seq![("path"@, path)] + after);
            let without = Toml::Table(before);
            let set = ("path"@, Toml::Text("apps/"@ + name));
            &&& members.contains(name) ==> manifest::rewritten_dep(with, name, members)
                == Toml::Table(before + seq![set] + after)
            &&& members.contains(name) ==> manifest::rewritten_dep(without, name, members)
                == Toml::Table(before.push(set))
            &&& !members.contains(name) ==> manifest::rewritten_dep(with, name, members)
                == Toml::Table(before + after)
            &&& !members.contains(name) ==> manifest::rewritten_dep(without, name, members)
                == without
        }),
{
    set_in_place(before, "path"@, path, after, Toml::Text("apps/"@ + name));
    taken_out(before, "path"@, path, after);
}

proof fn set_in_place(before: Entries, key: Seq<char>, value: Toml, after: Entries, new: Toml)
    requires
        forall|j: int| 0 <= j < before.len() ==> (#[trigger] before[j]).0 != key,
    ensures
        toml::with_key(Toml::Table(before + seq![(key, value)] + after), key, new) == Toml::Table(
            before + seq![(key, new)] + after,
        ),
        toml::with_key(Toml::Table(before), key, new) == Toml::Table(before.push((key, new))),
{
    let all = before + seq![(key, value)] + after;
    let p = before.len() as int;
    first_entry_is_found(before, key, value, after);
    toml::entry_index_finds(all, key);
    assert(all[p] == (key, value));
    let q = toml::entry_index(all, key);
    if q < p {
        assert(all[q] == before[q]);
    }
    assert(all.update(p, (key, new)) =~= before + seq![(key, new)] + after);
}

proof fn taken_out(before: Entries, key: Seq<char>, value: Toml, after: Entries)
    requires
        forall|j: int| 0 <= j < before.len() ==> (#[trigger] before[j]).0 != key,
        forall|j: int| 0 <= j < after.len() ==> (#[trigger] after[j]).0 != key,
    ensures
        toml::without_key(Toml::Table(before + seq![(key, value)] + after), key) == Toml::Table(
            before + after,
        ),
        toml::without_key(Toml::Table(before), key) == Toml::Table(before),
    decreases before.len(),
{
    let all = before + seq![(key, value)] + after;
    first_entry_is_found(before, key, value, after);
    toml::without_absent_key(Toml::Table(before), key);
    if before.len() == 0 {
        first_entry_is_found(after, key, value, before);
        toml::without_absent_key(Toml::Table(after), key);
        assert(all.drop_first() =~= after);
        assert(before + after =~= after);
    } else {
        let rest = before.drop_first();
        assert forall|j: int| 0 <= j < rest.len() implies (#[trigger] rest[j]).0 != key by {
            assert(rest[j] == before[j + 1]);
        }
        taken_out(rest, key, value, after);
        assert(all.drop_first() =~= rest + seq![(key, value)] + after);
        assert(seq![before[0]] + (rest + after) =~= before + after);
    }
}

/// The version of the target's workspace afterwards: the source's, if that is a string and the
/// target has a `[workspace.package]`. Nothing else of the package is touched, and nothing at all
/// otherwise.
pub proof fn source_version_arrives(src: Toml, dst: Toml, field: Seq<char>)
    requires
        dst is Table,
    ensures
        ({
            let out = manifest::transformed_root(src, dst);
            let from = within(within(toml::lookup(src, "workspace"@), "package"@), "version"@);
            let old = within(toml::lookup(dst, "workspace"@), "package"@);
            let new = within(toml::lookup(out, "workspace"@), "package"@);
            if from is Some && from->Some_0 is Text && old is Some && old->Some_0 is Table {
                &&& within(new, "version"@) == from
                &&& field != "version"@ ==> within(new, field) == within(old, field)
            } else {
                new == old
            }
        }),
{
    let from = within(within(toml::lookup(src, "workspace"@), "package"@), "version"@);
    let old = within(toml::lookup(dst, "workspace"@), "package"@);
    laws::transform_package(src, dst);
    if from is Some && from->Some_0 is Text && old is Some && old->Some_0 is Table {
        laws::transform_takes_version(src, dst, field);
    }
}

/// The version of a workspace is the string at its place, and nothing else is a version.
pub proof fn version_is_the_string(tree: Toml)
    ensures
        match within(within(toml::lookup(tree, "workspace"@), "package"@), "version"@) {
            Some(Toml::Text(version)) => manifest::workspace_version(tree) == Some(version),
            _ => manifest::workspace_version(tree) is None,
        },
{
}

/// A workspace of the target that is no table, or that is not there, is left as it is.
pub proof fn workspace_is_never_made(src: Toml, dst: Toml)
    requires
        dst is Table,
        !(toml::lookup(dst, "workspace"@) matches Some(workspace) && workspace is Table),
    ensures
        toml::lookup(manifest::transformed_root(src, dst), "workspace"@) == toml::lookup(
            dst,
            "workspace"@,
        ),
{
    laws::transform_keeps_odd_workspace(src, dst);
}

/// The patches of the target afterwards are the source's, as they are; there are none if the
/// source has none.
pub proof fn source_patches_arrive(src: Toml, dst: Toml)
    requires
        dst is Table,
    ensures
        toml::lookup(manifest::transformed_root(src, dst), "patch"@) == match toml::lookup(
            src,
            "patch"@,
        ) {
            Some(Toml::Table(e)) => if e.len() > 0 {
                Some(Toml::Table(e))
            } else {
                None
            },
            _ => None,
        },
{
    laws::transform_patch(src, dst);
}

/// What is reported as skipped: a version string that finds no `[workspace.package]`, and
/// dependencies that find no `[workspace]`.
pub proof fn skipped_is_what_finds_no_place(src: Toml, dst: Toml)
    ensures
        manifest::skipped(src, dst).version <==> {
            &&& within(within(toml::lookup(src, "workspace"@), "package"@), "version"@) matches Some(
                version,
            )
            &&& version is Text
            &&& !(within(toml::lookup(dst, "workspace"@), "package"@) matches Some(package)
                && package is Table)
        },
        manifest::skipped(src, dst).dependencies <==> {
            &&& within(toml::lookup(src, "workspace"@), "dependencies"@) matches Some(deps)
            &&& deps is Table
            &&& !(toml::lookup(dst, "workspace"@) matches Some(workspace) && workspace is Table)
        },
{
}

/// What a sync makes of a dependency in one of an application's three sections. One that is no
/// table is left as it is. Of a table every field is left as it is but the path, and the registry
/// of a member: a member's path leads to the directory beside the application and it has no
/// registry; any other has no path.
pub open spec fn fits(
    old: Option<Toml>,
    new: Option<Toml>,
    name: Seq<char>,
    member: bool,
    field: Seq<char>,
) -> bool {
    match old {
        None => new is None,
        Some(dep) => if dep is Table {
            &&& new is Some && new->Some_0 is Table
            &&& within(new, field) == if field == "path"@ {
                if member {
                    Some(Toml::Text("../"@ + name))
                } else {
                    None
                }
            } else if member && field == "registry"@ {
                None
            } else {
                toml::lookup(dep, field)
            }
        } else {
            new == old
        },
    }
}

proof fn section_fits(
    section: Toml,
    members: Seq<Seq<char>>,
    name: Seq<char>,
    field: Seq<char>,
)
    ensures
        ({
            let out = manifest::stripped_section(section, members);
            &&& fits(
                toml::lookup(section, name),
                toml::lookup(out, name),
                name,
                members.contains(name),
                field,
            )
            &&& section is Table ==> out is Table && toml::keys(out->Table_0) == toml::keys(
                section->Table_0,
            )
            &&& !(section is Table) ==> out == section
        }),
{
    laws::stripped_section_deps(section, members, name);
    if let Some(dep) = toml::lookup(section, name) {
        if dep is Table {
            laws::stripped_dep_fields(dep, name, members, field);
        }
    }
    if let Toml::Table(e) = section {
        assert(toml::keys(manifest::stripped_section(section, members)->Table_0) =~= toml::keys(e));
    }
}

/// Every dependency in each of the three sections of an application is made fit, under its name
/// and in its order; a section that is no table is left as it is.
pub proof fn dependencies_of_an_app_fit(
    tree: Toml,
    members: Seq<Seq<char>>,
    section: Seq<char>,
    name: Seq<char>,
    field: Seq<char>,
)
    requires
        section == "dependencies"@ || section == "dev-dependencies"@ || section
            == "build-dependencies"@,
    ensures
        ({
            let out = manifest::stripped_manifest(tree, members);
            let old = toml::lookup(tree, section);
            let new = toml::lookup(out, section);
            &&& fits(within(old, name), within(new, name), name, members.contains(name), field)
            &&& old matches Some(Toml::Table(e)) ==> match new {
                Some(Toml::Table(n)) => toml::keys(n) == toml::keys(e),
                _ => false,
            }
            &&& !(old matches Some(value) && value is Table) ==> new == old
        }),
{
    laws::names_differ();
    laws::stripped_manifest_keys(tree, members, section);
    if let Some(value) = toml::lookup(tree, section) {
        section_fits(value, members, name, field);
    }
}

/// So is every dependency in the three sections of every platform.
pub proof fn dependencies_of_a_platform_fit(
    tree: Toml,
    members: Seq<Seq<char>>,
    platform: Seq<char>,
    section: Seq<char>,
    name: Seq<char>,
    field: Seq<char>,
)
    requires
        section == "dependencies"@ || section == "dev-dependencies"@ || section
            == "build-dependencies"@,
    ensures
        ({
            let out = manifest::stripped_manifest(tree, members);
            let old = within(within(toml::lookup(tree, "target"@), platform), section);
            let new = within(within(toml::lookup(out, "target"@), platform), section);
            &&& fits(within(old, name), within(new, name), name, members.contains(name), field)
            &&& old matches Some(Toml::Table(e)) ==> match new {
                Some(Toml::Table(n)) => toml::keys(n) == toml::keys(e),
                _ => false,
            }
            &&& !(old matches Some(value) && value is Table) ==> new == old
        }),
{
    laws::names_differ();
    laws::stripped_manifest_keys(tree, members, "target"@);
    if let Some(targets) = toml::lookup(tree, "target"@) {
        laws::stripped_target_keys(targets, members, platform, section);
        if let Some(value) = within(toml::lookup(targets, platform), section) {
            section_fits(value, members, name, field);
        }
    }
}

/// Nothing else in an application's manifest changes.
pub proof fn the_rest_of_an_app_stays(
    tree: Toml,
    members: Seq<Seq<char>>,
    key: Seq<char>,
    platform: Seq<char>,
)
    requires
        key != "dependencies"@,
        key != "dev-dependencies"@,
        key != "build-dependencies"@,
    ensures
        ({
            let out = manifest::stripped_manifest(tree, members);
            &&& key != "target"@ ==> toml::lookup(out, key) == toml::lookup(tree, key)
            &&& within(within(toml::lookup(out, "target"@), platform), key) == within(
                within(toml::lookup(tree, "target"@), platform),
                key,
            )
            &&& tree matches Toml::Table(e) ==> match out {
                Toml::Table(o) => toml::keys(o) == toml::keys(e),
                _ => false,
            }
            &&& !(tree is Table) ==> out == tree
        }),
{
    laws::names_differ();
    laws::stripped_manifest_keys(tree, members, key);
    laws::stripped_manifest_keys(tree, members, "target"@);
    if let Some(targets) = toml::lookup(tree, "target"@) {
        laws::stripped_target_keys(targets, members, platform, key);
    }
    let f = |section: Toml| manifest::stripped_section(section, members);
    let g = |targets: Toml| manifest::stripped_targets(targets, members);
    let one = toml::on_key(tree, "dependencies"@, f);
    let two = toml::on_key(one, "dev-dependencies"@, f);
    let three = toml::on_key(two, "build-dependencies"@, f);
    keys_on_key(tree, "dependencies"@, f);
    keys_on_key(one, "dev-dependencies"@, f);
    keys_on_key(two, "build-dependencies"@, f);
    keys_on_key(three, "target"@, g);
}

proof fn keys_on_key(tree: Toml, key: Seq<char>, f: spec_fn(Toml) -> Toml)
    ensures
        tree is Table ==> toml::on_key(tree, key, f) is Table && toml::keys(
            toml::on_key(tree, key, f)->Table_0,
        ) == toml::keys(tree->Table_0),
        !(tree is Table) ==> toml::on_key(tree, key, f) == tree,
{
    if let Toml::Table(e) = tree {
        toml::entry_index_finds(e, key);
        if toml::has_key(e, key) {
            assert(toml::keys(toml::on_key(tree, key, f)->Table_0) =~= toml::keys(e));
        }
    }
}

/// A dependency of an application, entry by entry: a member's path is set where it stands, or at
/// the end; any other's is taken out.
pub proof fn stripped_entry_by_entry(
    before: Entries,
    path: Toml,
    after: Entries,
    name: Seq<char>,
    members: Seq<Seq<char>>,
)
    requires
        forall|j: int| 0 <= j < before.len() ==> (#[trigger] before[j]).0 != "path"@,
        forall|j: int| 0 <= j < after.len() ==> (#[trigger] after[j]).0 != "path"@,
    ensures
        ({
            let with = Toml::Table(before + seq![("path"@, path)] + after);
            let without = Toml::Table(before);
            let set = ("path"@, Toml::Text("../"@ + name));
            let plain = |e: Entries|
                forall|j: int| 0 <= j < e.len() ==> (#[trigger] e[j]).0 != "registry"@;
            &&& members.contains(name) && plain(before) && plain(after)
                ==> manifest::stripped_dep(with, name, members) == Toml::Table(
                before + seq![set] + after,
            )
            &&& members.contains(name) && plain(before) ==> manifest::stripped_dep(
                without,
                name,
                members,
            ) == Toml::Table(before.push(set))
            &&& !members.contains(name) ==> manifest::stripped_dep(with, name, members)
                == Toml::Table(before + after)
            &&& !members.contains(name) ==> manifest::stripped_dep(without, name, members)
                == without
        }),
{
    laws::names_differ();
    let set = ("path"@, Toml::Text("../"@ + name));
    set_in_place(before, "path"@, path, after, set.1);
    taken_out(before, "path"@, path, after);
    let all = before + seq![set] + after;
    let pushed = before.push(set);
    let plain = |e: Entries|
        forall|j: int| 0 <= j < e.len() ==> (#[trigger] e[j]).0 != "registry"@;
    if plain(before) {
        assert forall|j: int| 0 <= j < pushed.len() implies (#[trigger] pushed[j]).0
            != "registry"@ by {
            if j < before.len() {
                assert(pushed[j] == before[j]);
            }
        }
        first_entry_is_found(pushed, "registry"@, path, after);
        toml::without_absent_key(Toml::Table(pushed), "registry"@);
        if plain(after) {
            assert forall|j: int| 0 <= j < all.len() implies (#[trigger] all[j]).0
                != "registry"@ by {
                if j < before.len() {
                    assert(all[j] == before[j]);
                } else if j > before.len() {
                    assert(all[j] == after[j - before.len() - 1]);
                }
            }
            first_entry_is_found(all, "registry"@, path, after);
            toml::without_absent_key(Toml::Table(all), "registry"@);
        }
    }
}

/// The registry of a configuration is made where there is none, at the end, and never replaced;
/// it is refused exactly where `registries` is there and is no table.
pub proof fn registry_is_made_or_kept(before: Entries, registries: Entries, odd: Toml, after: Entries)
    requires
        forall|j: int| 0 <= j < before.len() ==> (#[trigger] before[j]).0 != "registries"@,
        !(odd is Table),
    ensures
        ({
            let fsl = (
                "fsl"@,
                Toml::Table(
                    seq![("index"@, Toml::Text("sparse+https://crates.fsl.dev/api/v1/crates/"@))],
                ),
            );
            let has = Toml::Table(before + seq![("registries"@, Toml::Table(registries))] + after);
            let there = exists|j: int|
                0 <= j < registries.len() && (#[trigger] registries[j]).0 == "fsl"@;
            &&& manifest::with_fsl_registry(Toml::Table(before)) == Some(
                Toml::Table(before.push(("registries"@, Toml::Table(seq![fsl])))),
            )
            &&& !there ==> manifest::with_fsl_registry(has) == Some(
                Toml::Table(
                    before + seq![("registries"@, Toml::Table(registries.push(fsl)))] + after,
                ),
            )
            &&& there ==> manifest::with_fsl_registry(has) == Some(has)
            &&& manifest::with_fsl_registry(
                Toml::Table(before + seq![("registries"@, odd)] + after),
            ) is None
        }),
{
    let fsl = (
        "fsl"@,
        Toml::Table(
            seq![("index"@, Toml::Text("sparse+https://crates.fsl.dev/api/v1/crates/"@))],
        ),
    );
    let key = "registries"@;
    let old = Toml::Table(registries);
    first_entry_is_found(before, key, old, after);
    first_entry_is_found(before, key, odd, after);
    set_in_place(before, key, old, after, Toml::Table(registries.push(fsl)));
    set_in_place(before, key, old, after, Toml::Table(seq![fsl]));
    toml::entry_index_finds(registries, "fsl"@);
    if toml::has_key(registries, "fsl"@) {
        let p = toml::entry_index(registries, "fsl"@);
        assert(registries[p].0 == "fsl"@);
    } else {
        assert forall|j: int| 0 <= j < registries.len() implies (#[trigger] registries[j]).0
            != "fsl"@ by {
            assert(toml::keys(registries)[j] == registries[j].0);
        }
    }
}

} // verus!
