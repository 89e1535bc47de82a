//! The edits that a sync makes to `Cargo.toml` files and to Cargo's configuration.
use vstd::prelude::*;

use super::error::{SyncError, TomlInput};
use super::toml;
use super::toml::{Entries, Toml};
use crate::text;

verus! {

/// `text` is what `toml_edit` prints for some document with these contents.
pub open spec fn prints(text: Seq<char>, tree: Toml) -> bool {
    exists|doc: toml_edit::DocumentMut| #[trigger] toml::doc_tree(doc) == tree && toml::doc_text(doc) == text
}

/// A dependency of an application, made fit for the downstream layout: one of a workspace
/// member points to its sibling directory and to no registry, any other has no path.
pub open spec fn stripped_dep(dep: Toml, name: Seq<char>, members: Seq<Seq<char>>) -> Toml {
    if members.contains(name) {
        toml::without_key(toml::with_key(dep, "path"@, Toml::Text("../"@ + name)), "registry"@)
    } else {
        toml::without_key(dep, "path"@)
    }
}

/// A table of dependencies with each of them made fit.
pub open spec fn stripped_section(section: Toml, members: Seq<Seq<char>>) -> Toml {
    match section {
        Toml::Table(e) => Toml::Table(
            e.map_values(
                |entry: (Seq<char>, Toml)| (entry.0, stripped_dep(entry.1, entry.0, members)),
            ),
        ),
        _ => section,
    }
}

/// A table with its three dependency sections made fit.
pub open spec fn stripped_sections(tree: Toml, members: Seq<Seq<char>>) -> Toml {
    let f = |section: Toml| stripped_section(section, members);
    toml::on_key(toml::on_key(toml::on_key(tree, "dependencies"@, f), "dev-dependencies"@, f), "build-dependencies"@, f)
}

/// A `target` table with the sections of every platform made fit.
pub open spec fn stripped_targets(targets: Toml, members: Seq<Seq<char>>) -> Toml {
    match targets {
        Toml::Table(e) => Toml::Table(
            e.map_values(
                |entry: (Seq<char>, Toml)| (entry.0, stripped_sections(entry.1, members)),
            ),
        ),
        _ => targets,
    }
}

/// An application's manifest with all its dependencies made fit.
pub open spec fn stripped_manifest(tree: Toml, members: Seq<Seq<char>>) -> Toml {
    toml::on_key(
        stripped_sections(tree, members),
        "target"@,
        |targets: Toml| stripped_targets(targets, members),
    )
}

/// Makes one dependency fit.
fn strip_dep(dep: &mut toml_edit::Item, name: &str, members: &[String])
    requires
        !(toml::item_tree(*old(dep)) is Irregular),
    ensures
        toml::item_tree(*final(dep)) == stripped_dep(toml::item_tree(*old(dep)), name@, text::views(members@)),
{
    if toml::is_table(dep) {
        if text::holds(members, name) {
            let path = "../".to_owned().concat(name);
            toml::table_insert(dep, "path", toml::text_item(path.as_str()));
            toml::table_remove(dep, "registry");
        } else {
            toml::table_remove(dep, "path");
        }
    }
}

/// Makes every dependency of a section fit.
fn strip_section(section: &mut toml_edit::Item, members: &[String])
    requires
        !(toml::item_tree(*old(section)) is Irregular),
    ensures
        toml::item_tree(*final(section)) == stripped_section(toml::item_tree(*old(section)), text::views(members@)),
        !(toml::item_tree(*final(section)) is Irregular),
{
    if !toml::is_table(section) {
        return ;
    }
    let ghost e = toml::item_tree(*section)->Table_0;
    let ghost ms = text::views(members@);
    let names = toml::table_keys(section);
    let mut i: usize = 0;
    assert(text::views(names@).len() == e.len());
    while i < names.len()
        invariant
            text::views(names@) == toml::keys(e),
            names@.len() == e.len(),
            toml::keys(e).no_duplicates(),
            ms == text::views(members@),
            i <= names.len(),
            toml::item_tree(*section) is Table,
            toml::item_tree(*section)->Table_0.len() == e.len(),
            forall|j: int|
                0 <= j < i ==> #[trigger] toml::item_tree(*section)->Table_0[j] == (
                    e[j].0,
                    stripped_dep(e[j].1, e[j].0, ms),
                ),
            forall|j: int| i <= j < e.len() ==> #[trigger] toml::item_tree(*section)->Table_0[j] == e[j],
        decreases names.len() - i,
    {
        let ghost cur = toml::item_tree(*section)->Table_0;
        proof {
            assert(toml::keys(e)[i as int] == names@[i as int]@);
            assert(toml::keys(cur) =~= toml::keys(e));
            toml::entry_index_of(cur, i as int);
        }
        if let Some(dep) = toml::table_get_mut(section, names[i].as_str()) {
            strip_dep(dep, names[i].as_str(), members);
        }
        i += 1;
    }
    proof {
        assert(toml::item_tree(*section)->Table_0 =~= stripped_section(Toml::Table(e), ms)->Table_0);
    }
}

/// Makes the section of that name of a table fit, if it has one.
fn strip_named_section(table: &mut toml_edit::Item, name: &str, members: &[String])
    requires
        !(toml::item_tree(*old(table)) is Irregular),
    ensures
        toml::item_tree(*final(table)) == toml::on_key(
            toml::item_tree(*old(table)),
            name@,
            |section: Toml| stripped_section(section, text::views(members@)),
        ),
        !(toml::item_tree(*final(table)) is Irregular),
{
    if toml::is_table(table) {
        if let Some(section) = toml::table_get_mut(table, name) {
            strip_section(section, members);
        }
    }
}

/// Makes the three sections of a table fit.
fn strip_sections(table: &mut toml_edit::Item, members: &[String])
    requires
        !(toml::item_tree(*old(table)) is Irregular),
    ensures
        toml::item_tree(*final(table)) == stripped_sections(toml::item_tree(*old(table)), text::views(members@)),
        !(toml::item_tree(*final(table)) is Irregular),
{
    strip_named_section(table, "dependencies", members);
    strip_named_section(table, "dev-dependencies", members);
    strip_named_section(table, "build-dependencies", members);
}

/// Makes the sections of every platform fit.
fn strip_targets(targets: &mut toml_edit::Item, members: &[String])
    requires
        !(toml::item_tree(*old(targets)) is Irregular),
    ensures
        toml::item_tree(*final(targets)) == stripped_targets(toml::item_tree(*old(targets)), text::views(members@)),
        !(toml::item_tree(*final(targets)) is Irregular),
{
    if !toml::is_table(targets) {
        return ;
    }
    let ghost e = toml::item_tree(*targets)->Table_0;
    let ghost ms = text::views(members@);
    let names = toml::table_keys(targets);
    let mut i: usize = 0;
    assert(text::views(names@).len() == e.len());
    while i < names.len()
        invariant
            text::views(names@) == toml::keys(e),
            names@.len() == e.len(),
            toml::keys(e).no_duplicates(),
            ms == text::views(members@),
            i <= names.len(),
            toml::item_tree(*targets) is Table,
            toml::item_tree(*targets)->Table_0.len() == e.len(),
            forall|j: int|
                0 <= j < i ==> #[trigger] toml::item_tree(*targets)->Table_0[j] == (
                    e[j].0,
                    stripped_sections(e[j].1, ms),
                ),
            forall|j: int| i <= j < e.len() ==> #[trigger] toml::item_tree(*targets)->Table_0[j] == e[j],
        decreases names.len() - i,
    {
        let ghost cur = toml::item_tree(*targets)->Table_0;
        proof {
            assert(toml::keys(e)[i as int] == names@[i as int]@);
            assert(toml::keys(cur) =~= toml::keys(e));
            toml::entry_index_of(cur, i as int);
        }
        if let Some(platform) = toml::table_get_mut(targets, names[i].as_str()) {
            strip_sections(platform, members);
        }
        i += 1;
    }
    proof {
        assert(toml::item_tree(*targets)->Table_0 =~= stripped_targets(Toml::Table(e), ms)->Table_0);
    }
}

/// Makes the section of that name of a document fit, if it has one.
fn strip_document_section(doc: &mut toml_edit::DocumentMut, name: &str, members: &[String])
    requires
        toml::doc_tree(*old(doc)) is Table,
    ensures
        toml::doc_tree(*final(doc)) == toml::on_key(
            toml::doc_tree(*old(doc)),
            name@,
            |section: Toml| stripped_section(section, text::views(members@)),
        ),
        toml::doc_tree(*final(doc)) is Table,
{
    if let Some(section) = toml::doc_get_mut(doc, name) {
        strip_section(section, members);
    }
}

/// Makes all the dependencies of an application's manifest fit.
pub fn strip_document(doc: &mut toml_edit::DocumentMut, members: &[String])
    requires
        toml::doc_tree(*old(doc)) is Table,
    ensures
        toml::doc_tree(*final(doc)) == stripped_manifest(toml::doc_tree(*old(doc)), text::views(members@)),
        toml::doc_tree(*final(doc)) is Table,
{
    strip_document_section(doc, "dependencies", members);
    strip_document_section(doc, "dev-dependencies", members);
    strip_document_section(doc, "build-dependencies", members);
    if let Some(targets) = toml::doc_get_mut(doc, "target") {
        strip_targets(targets, members);
    }
}

/// Removes or rewrites the `path` of every dependency in an application's `Cargo.toml`.
///
/// This covers `[dependencies]`, `[dev-dependencies]`, `[build-dependencies]` and the same
/// sections of every `[target.*]`. A dependency on one of `workspace_members` gets the path
/// of its sibling directory and loses its `registry`, so that it is found locally; any other
/// loses its `path`, so that it is found through its registry.
pub fn strip_path_from_deps(toml_content: &str, workspace_members: &[String]) -> (r: Result<
    String,
    SyncError,
>)
    ensures
        match toml::toml_parse(toml_content@) {
            Ok(tree) => r matches Ok(out) && prints(
                out@,
                stripped_manifest(tree, text::views(workspace_members@)),
            ),
            Err(message) => r matches Err(SyncError::BadToml { input, message: m }) && input
                == TomlInput::AppManifest && m@ == message,
        },
{
    match toml::parse_document(toml_content) {
        Ok(parsed) => {
            let mut doc = parsed;
            strip_document(&mut doc, workspace_members);
            let out = toml::print_document(&doc);
            Ok(out)
        },
        Err(message) => Err(SyncError::BadToml { input: TomlInput::AppManifest, message }),
    }
}

/// What `tree` holds under `key` of what it holds under `table`.
pub open spec fn lookup_in(tree: Toml, table: Seq<char>, key: Seq<char>) -> Option<Toml> {
    match toml::lookup(tree, table) {
        Some(inner) => toml::lookup(inner, key),
        None => None,
    }
}

/// The last path component of each string of a list of workspace members.
pub open spec fn member_names(elements: Seq<Toml>) -> Seq<Seq<char>>
    decreases elements.len(),
{
    if elements.len() == 0 {
        Seq::empty()
    } else {
        match elements.last() {
            Toml::Text(path) => member_names(elements.drop_last()).push(text::after_last(path, '/')),
            _ => member_names(elements.drop_last()),
        }
    }
}

/// The names of the members of a workspace.
pub open spec fn workspace_members(tree: Toml) -> Seq<Seq<char>> {
    match lookup_in(tree, "workspace"@, "members"@) {
        Some(Toml::Array(elements)) => member_names(elements),
        _ => Seq::empty(),
    }
}

/// The version of a workspace, if it is given and is a string.
pub open spec fn workspace_version(tree: Toml) -> Option<Seq<char>> {
    match lookup_in(tree, "workspace"@, "package"@) {
        Some(package) => match toml::lookup(package, "version"@) {
            Some(Toml::Text(version)) => Some(version),
            _ => None,
        },
        None => None,
    }
}

/// The destination with the source's workspace version, if it has a
/// `[workspace.package]` and the source has a version.
pub open spec fn versioned(src: Toml, dst: Toml) -> Toml {
    match workspace_version(src) {
        Some(version) => toml::on_key(
            dst,
            "workspace"@,
            |ws: Toml|
                toml::on_key(
                    ws,
                    "package"@,
                    |package: Toml| toml::with_key(package, "version"@, Toml::Text(version)),
                ),
        ),
        None => dst,
    }
}

/// A workspace dependency of the source, made fit for the root of the target: one on a
/// member points into `apps/`, any other has no path.
pub open spec fn rewritten_dep(dep: Toml, name: Seq<char>, members: Seq<Seq<char>>) -> Toml {
    if members.contains(name) {
        toml::with_key(dep, "path"@, Toml::Text("apps/"@ + name))
    } else {
        toml::without_key(dep, "path"@)
    }
}

/// The entries of `dst` whose keys `src` does not have.
pub open spec fn only_in(dst: Entries, src: Entries) -> Entries {
    dst.filter(|entry: (Seq<char>, Toml)| !toml::has_key(src, entry.0))
}

/// The source's dependencies made fit, then those that only the destination has.
pub open spec fn merged_deps(src: Entries, dst: Entries, members: Seq<Seq<char>>) -> Entries {
    src.map_values(
        |entry: (Seq<char>, Toml)| (entry.0, rewritten_dep(entry.1, entry.0, members)),
    ) + only_in(dst, src)
}

/// The destination with the merged workspace dependencies, if it has a workspace and the
/// source has dependencies.
pub open spec fn with_merged_deps(src: Toml, dst: Toml) -> Toml {
    match lookup_in(src, "workspace"@, "dependencies"@) {
        Some(Toml::Table(e)) => {
            let d = toml::entries_of(lookup_in(dst, "workspace"@, "dependencies"@));
            let merged = Toml::Table(merged_deps(e, d, workspace_members(src)));
            toml::on_key(
                dst,
                "workspace"@,
                |ws: Toml| toml::with_key(ws, "dependencies"@, merged),
            )
        },
        _ => dst,
    }
}

/// The destination with the patches of the source in place of its own.
pub open spec fn with_patches(src: Toml, dst: Toml) -> Toml {
    let e = toml::entries_of(toml::lookup(src, "patch"@));
    let bare = toml::without_key(dst, "patch"@);
    if e.len() == 0 {
        bare
    } else {
        toml::with_key(bare, "patch"@, Toml::Table(e))
    }
}

/// The destination's root manifest after a sync from the source.
pub open spec fn transformed_root(src: Toml, dst: Toml) -> Toml {
    with_patches(src, with_merged_deps(src, versioned(src, dst)))
}

/// The names of the members of a workspace.
fn read_members(doc: &toml_edit::DocumentMut) -> (r: Vec<String>)
    requires
        toml::doc_tree(*doc) is Table,
    ensures
        text::views(r@) == workspace_members(toml::doc_tree(*doc)),
{
    let mut names: Vec<String> = Vec::new();
    let ghost mut elements: Seq<Toml> = Seq::empty();
    if let Some(ws) = toml::doc_get(doc, "workspace") {
        if let Some(members) = toml::item_get(ws, "members") {
            proof {
                if let Toml::Array(all) = toml::item_tree(*members) {
                    elements = all;
                }
            }
            let mut i: usize = 0;
            assert(text::views(names@) =~= member_names(elements.take(0)));
            loop
                invariant
                    !(toml::item_tree(*members) is Irregular),
                    match toml::item_tree(*members) {
                        Toml::Array(all) => elements == all,
                        _ => elements.len() == 0,
                    },
                    i <= elements.len(),
                    text::views(names@) == member_names(elements.take(i as int)),
                ensures
                    i == elements.len(),
                decreases elements.len() - i,
            {
                match toml::item_at(members, i) {
                    Some(element) => {
                        proof {
                            assert(elements.take(i + 1).drop_last() =~= elements.take(i as int));
                        }
                        if let Some(path) = toml::item_str(element) {
                            let ghost before = names@;
                            names.push(text::after_last_text(path, '/'));
                            assert(text::views(names@) =~= text::views(before).push(
                                names@.last()@,
                            ));
                        }
                        i += 1;
                    },
                    None => {
                        break ;
                    },
                }
            }
            assert(elements.take(i as int) =~= elements);
        }
    }
    assert(text::views(Seq::<String>::empty()) =~= Seq::<Seq<char>>::empty());
    names
}

/// The version of a workspace, if it is given and is a string.
pub fn document_version(doc: &toml_edit::DocumentMut) -> (r: Option<String>)
    requires
        toml::doc_tree(*doc) is Table,
    ensures
        match r {
            Some(version) => workspace_version(toml::doc_tree(*doc)) == Some(version@),
            None => workspace_version(toml::doc_tree(*doc)) is None,
        },
{
    if let Some(ws) = toml::doc_get(doc, "workspace") {
        if let Some(package) = toml::item_get(ws, "package") {
            if let Some(version) = toml::item_get(package, "version") {
                if let Some(s) = toml::item_str(version) {
                    return Some(s.to_owned());
                }
            }
        }
    }
    None
}

/// Sets the version of a workspace that has a `[workspace.package]`.
fn set_version(dst: &mut toml_edit::DocumentMut, version: &str)
    requires
        toml::doc_tree(*old(dst)) is Table,
    ensures
        toml::doc_tree(*final(dst)) == toml::on_key(
            toml::doc_tree(*old(dst)),
            "workspace"@,
            |ws: Toml|
                toml::on_key(
                    ws,
                    "package"@,
                    |package: Toml| toml::with_key(package, "version"@, Toml::Text(version@)),
                ),
        ),
        toml::doc_tree(*final(dst)) is Table,
{
    if let Some(ws) = toml::doc_get_mut(dst, "workspace") {
        if toml::is_table(ws) {
            if let Some(package) = toml::table_get_mut(ws, "package") {
                if toml::is_table(package) {
                    toml::table_insert(package, "version", toml::text_item(version));
                }
            }
        }
    }
}

/// One table of the dependencies of `src` made fit and those that only `dst` has.
fn merge_deps(
    src: &toml_edit::Item,
    dst: Option<&toml_edit::Item>,
    members: &[String],
) -> (r: toml_edit::Item)
    requires
        toml::item_tree(*src) is Table,
        dst matches Some(d) ==> !(toml::item_tree(*d) is Irregular),
    ensures
        toml::item_tree(r) == Toml::Table(
            merged_deps(
                toml::item_tree(*src)->Table_0,
                toml::entries_of(
                    match dst {
                        Some(d) => Some(toml::item_tree(*d)),
                        None => None,
                    },
                ),
                text::views(members@),
            ),
        ),
{
    let ghost e = toml::item_tree(*src)->Table_0;
    let ghost ms = text::views(members@);
    let ghost fit = e.map_values(
        |entry: (Seq<char>, Toml)| (entry.0, rewritten_dep(entry.1, entry.0, ms)),
    );
    let mut merged = toml::new_table();
    let names = toml::table_keys(src);
    let mut i: usize = 0;
    assert(text::views(names@).len() == e.len());
    assert(fit.take(0) =~= Seq::empty());
    while i < names.len()
        invariant
            toml::item_tree(*src) == Toml::Table(e),
            text::views(names@) == toml::keys(e),
            names@.len() == e.len(),
            toml::keys(e).no_duplicates(),
            ms == text::views(members@),
            fit == e.map_values(
                |entry: (Seq<char>, Toml)| (entry.0, rewritten_dep(entry.1, entry.0, ms)),
            ),
            i <= names.len(),
            toml::item_tree(merged) == Toml::Table(fit.take(i as int)),
        decreases names.len() - i,
    {
        let ghost key = e[i as int].0;
        proof {
            assert(toml::keys(e)[i as int] == names@[i as int]@);
            toml::entry_index_of(e, i as int);
            toml::entry_index_finds(fit.take(i as int), key);
            assert(!toml::has_key(fit.take(i as int), key)) by {
                let p = toml::entry_index(fit.take(i as int), key);
                if p < i {
                    assert(fit[p].0 == e[p].0);
                    assert(toml::keys(e)[p] == toml::keys(e)[i as int]);
                }
            }
        }
        if let Some(found) = toml::item_get(src, names[i].as_str()) {
            let mut dep = toml::copy_item(found);
            if toml::is_table(&dep) {
                if text::holds(members, names[i].as_str()) {
                    let path = "apps/".to_owned().concat(names[i].as_str());
                    toml::table_insert(&mut dep, "path", toml::text_item(path.as_str()));
                } else {
                    toml::table_remove(&mut dep, "path");
                }
            }
            toml::table_insert(&mut merged, names[i].as_str(), dep);
        }
        proof {
            assert(fit.take(i as int).push(fit[i as int]) =~= fit.take(i + 1));
        }
        i += 1;
    }
    assert(fit.take(i as int) =~= fit);
    let ghost mut d: Entries = Seq::empty();
    let ghost absent = |entry: (Seq<char>, Toml)| !toml::has_key(e, entry.0);
    if let Some(extra) = dst {
        if toml::is_table(extra) {
            proof {
                d = toml::item_tree(*extra)->Table_0;
            }
            let more = toml::table_keys(extra);
            let mut j: usize = 0;
            assert(text::views(more@).len() == d.len());
            proof {
                assert(d.take(0) =~= Seq::empty());
                reveal(Seq::filter);
                assert(fit + d.take(0).filter(absent) =~= fit);
            }
            while j < more.len()
                invariant
                    toml::item_tree(*extra) == Toml::Table(d),
                    text::views(more@) == toml::keys(d),
                    more@.len() == d.len(),
                    toml::keys(d).no_duplicates(),
                    text::views(names@) == toml::keys(e),
                    fit == e.map_values(
                        |entry: (Seq<char>, Toml)| (entry.0, rewritten_dep(entry.1, entry.0, ms)),
                    ),
                    absent == |entry: (Seq<char>, Toml)| !toml::has_key(e, entry.0),
                    j <= more.len(),
                    toml::item_tree(merged) == Toml::Table(fit + d.take(j as int).filter(absent)),
                decreases more.len() - j,
            {
                let ghost key = d[j as int].0;
                let ghost so_far = fit + d.take(j as int).filter(absent);
                proof {
                    assert(toml::keys(d)[j as int] == more@[j as int]@);
                    toml::entry_index_of(d, j as int);
                    toml::entry_index_finds(e, key);
                    reveal(Seq::filter);
                    assert(d.take(j + 1).drop_last() =~= d.take(j as int));
                }
                if !text::holds(names.as_slice(), more[j].as_str()) {
                    proof {
                        toml::entry_index_finds(so_far, key);
                        assert(!toml::has_key(so_far, key)) by {
                            let p = toml::entry_index(so_far, key);
                            if p < fit.len() {
                                assert(fit[p].0 == e[p].0);
                                assert(toml::keys(e)[p] == key);
                            } else if p < so_far.len() {
                                filter_comes_from(d.take(j as int), absent, p - fit.len());
                                let q = choose|q: int|
                                    0 <= q < j && d.take(j as int)[q] == so_far[p];
                                assert(toml::keys(d)[q] == toml::keys(d)[j as int]);
                            }
                        }
                    }
                    if let Some(found) = toml::item_get(extra, more[j].as_str()) {
                        toml::table_insert(&mut merged, more[j].as_str(), toml::copy_item(found));
                    }
                    proof {
                        assert(so_far.push(d[j as int]) =~= fit + d.take(j + 1).filter(absent));
                    }
                }
                j += 1;
            }
            assert(d.take(j as int) =~= d);
        }
    }
    proof {
        reveal(Seq::filter);
        assert(fit + Seq::<(Seq<char>, Toml)>::empty().filter(absent) =~= fit);
        assert(only_in(d, e) == d.filter(absent));
    }
    merged
}

/// An element of a filtered sequence is an element of the sequence.
proof fn filter_comes_from(s: Entries, pred: spec_fn((Seq<char>, Toml)) -> bool, i: int)
    requires
        0 <= i < s.filter(pred).len(),
    ensures
        exists|q: int| 0 <= q < s.len() && s[q] == s.filter(pred)[i],
    decreases s.len(),
{
    reveal(Seq::filter);
    if s.len() > 0 {
        let rest = s.drop_last();
        if i < rest.filter(pred).len() {
            filter_comes_from(rest, pred, i);
            let q = choose|q: int| 0 <= q < rest.len() && rest[q] == rest.filter(pred)[i];
            assert(s[q] == s.filter(pred)[i]);
        } else {
            assert(s[s.len() - 1] == s.filter(pred)[i]);
        }
    }
}

/// Gives the workspace of `dst`, if it has one, the merged dependencies, if `src` has any.
fn set_merged_deps(src: &toml_edit::DocumentMut, dst: &mut toml_edit::DocumentMut)
    requires
        toml::doc_tree(*src) is Table,
        toml::doc_tree(*old(dst)) is Table,
    ensures
        toml::doc_tree(*final(dst)) == with_merged_deps(
            toml::doc_tree(*src),
            toml::doc_tree(*old(dst)),
        ),
        toml::doc_tree(*final(dst)) is Table,
{
    let members = read_members(src);
    if let Some(src_ws) = toml::doc_get(src, "workspace") {
        if let Some(src_deps) = toml::item_get(src_ws, "dependencies") {
            if toml::is_table(src_deps) {
                let dst_deps = match toml::doc_get(dst, "workspace") {
                    Some(ws) => toml::item_get(ws, "dependencies"),
                    None => None,
                };
                let merged = merge_deps(src_deps, dst_deps, members.as_slice());
                if let Some(ws) = toml::doc_get_mut(dst, "workspace") {
                    if toml::is_table(ws) {
                        toml::table_insert(ws, "dependencies", merged);
                    }
                }
            }
        }
    }
}

/// A table with the same entries, in the same order.
fn copy_table(table: &toml_edit::Item) -> (r: toml_edit::Item)
    requires
        toml::item_tree(*table) is Table,
    ensures
        toml::item_tree(r) == toml::item_tree(*table),
{
    let ghost e = toml::item_tree(*table)->Table_0;
    let mut copy = toml::new_table();
    let names = toml::table_keys(table);
    let mut i: usize = 0;
    assert(text::views(names@).len() == e.len());
    assert(e.take(0) =~= Seq::empty());
    while i < names.len()
        invariant
            toml::item_tree(*table) == Toml::Table(e),
            text::views(names@) == toml::keys(e),
            names@.len() == e.len(),
            toml::keys(e).no_duplicates(),
            i <= names.len(),
            toml::item_tree(copy) == Toml::Table(e.take(i as int)),
        decreases names.len() - i,
    {
        let ghost key = e[i as int].0;
        proof {
            assert(toml::keys(e)[i as int] == names@[i as int]@);
            toml::entry_index_of(e, i as int);
            toml::entry_index_finds(e.take(i as int), key);
            assert(!toml::has_key(e.take(i as int), key)) by {
                let p = toml::entry_index(e.take(i as int), key);
                if p < i {
                    assert(toml::keys(e)[p] == toml::keys(e)[i as int]);
                }
            }
        }
        if let Some(found) = toml::item_get(table, names[i].as_str()) {
            toml::table_insert(&mut copy, names[i].as_str(), toml::copy_item(found));
        }
        proof {
            assert(e.take(i as int).push(e[i as int]) =~= e.take(i + 1));
        }
        i += 1;
    }
    assert(e.take(i as int) =~= e);
    copy
}

/// Puts the patches of `src` in the place of those of `dst`.
fn set_patches(src: &toml_edit::DocumentMut, dst: &mut toml_edit::DocumentMut)
    requires
        toml::doc_tree(*src) is Table,
        toml::doc_tree(*old(dst)) is Table,
    ensures
        toml::doc_tree(*final(dst)) == with_patches(
            toml::doc_tree(*src),
            toml::doc_tree(*old(dst)),
        ),
        toml::doc_tree(*final(dst)) is Table,
{
    toml::doc_remove(dst, "patch");
    if let Some(patch) = toml::doc_get(src, "patch") {
        if toml::is_table(patch) {
            let names = toml::table_keys(patch);
            assert(text::views(names@).len() == names@.len());
            if names.len() > 0 {
                toml::doc_insert(dst, "patch", copy_table(patch));
            }
        }
    }
}

/// Brings the root manifest of the target up to that of the source.
pub fn transform_document(src: &toml_edit::DocumentMut, dst: &mut toml_edit::DocumentMut)
    requires
        toml::doc_tree(*src) is Table,
        toml::doc_tree(*old(dst)) is Table,
    ensures
        toml::doc_tree(*final(dst)) == transformed_root(
            toml::doc_tree(*src),
            toml::doc_tree(*old(dst)),
        ),
        toml::doc_tree(*final(dst)) is Table,
{
    if let Some(version) = document_version(src) {
        set_version(dst, version.as_str());
    }
    set_merged_deps(src, dst);
    set_patches(src, dst);
}

/// Merges the root `Cargo.toml` of the source into that of the target.
///
/// The workspace version is the source's. The workspace dependencies are the source's, in
/// order, then those that only the target has; a dependency on a member of the source's
/// workspace gets the path `apps/{name}`, any other of the source loses its path. The
/// patches are the source's. All else is the target's own.
pub fn transform_root_cargo_toml(src_content: &str, dst_content: &str) -> (r: Result<
    String,
    SyncError,
>)
    ensures
        match (toml::toml_parse(src_content@), toml::toml_parse(dst_content@)) {
            (Ok(src), Ok(dst)) => r matches Ok(out) && prints(out@, transformed_root(src, dst)),
            (Err(message), _) => r matches Err(SyncError::BadToml { input, message: m }) && input
                == TomlInput::SourceManifest && m@ == message,
            (Ok(_), Err(message)) => r matches Err(SyncError::BadToml { input, message: m })
                && input == TomlInput::TargetManifest && m@ == message,
        },
{
    let src = match toml::parse_document(src_content) {
        Ok(doc) => doc,
        Err(message) => {
            return Err(SyncError::BadToml { input: TomlInput::SourceManifest, message });
        },
    };
    let mut dst = match toml::parse_document(dst_content) {
        Ok(doc) => doc,
        Err(message) => {
            return Err(SyncError::BadToml { input: TomlInput::TargetManifest, message });
        },
    };
    transform_document(&src, &mut dst);
    Ok(toml::print_document(&dst))
}

/// The index of the FSL registry.
pub open spec fn fsl_index() -> Seq<char> {
    "sparse+https://crates.fsl.dev/api/v1/crates/"@
}

/// A Cargo configuration with the FSL registry in it; `None` if its `registries` is not a
/// table.
pub open spec fn with_fsl_registry(config: Toml) -> Option<Toml> {
    let fsl = Toml::Table(seq![("index"@, Toml::Text(fsl_index()))]);
    match toml::lookup(config, "registries"@) {
        None => Some(
            toml::with_key(config, "registries"@, Toml::Table(seq![("fsl"@, fsl)])),
        ),
        Some(Toml::Table(e)) => if toml::has_key(e, "fsl"@) {
            Some(config)
        } else {
            Some(toml::with_key(config, "registries"@, Toml::Table(e.push(("fsl"@, fsl)))))
        },
        Some(_) => None,
    }
}

/// Adds the FSL registry to a Cargo configuration that lacks it. Returns whether
/// `registries` is a table or was not there.
pub fn ensure_registry_in(doc: &mut toml_edit::DocumentMut) -> (r: bool)
    requires
        toml::doc_tree(*old(doc)) is Table,
    ensures
        match with_fsl_registry(toml::doc_tree(*old(doc))) {
            Some(tree) => r && toml::doc_tree(*final(doc)) == tree,
            None => !r && toml::doc_tree(*final(doc)) == toml::doc_tree(*old(doc)),
        },
        toml::doc_tree(*final(doc)) is Table,
{
    let ghost before = toml::doc_tree(*doc);
    let ghost fsl_tree = Toml::Table(seq![("index"@, Toml::Text(fsl_index()))]);
    if toml::doc_get(doc, "registries").is_none() {
        toml::doc_insert(doc, "registries", toml::new_table());
        proof {
            toml::lookup_with_key(
                before,
                "registries"@,
                Toml::Table(Seq::empty()),
                "registries"@,
            );
        }
    }
    match toml::doc_get_mut(doc, "registries") {
        Some(registries) => {
            let ghost old_registries = toml::item_tree(*registries);
            if !toml::is_table(registries) {
                proof {
                    toml::with_same_value(before, "registries"@, old_registries);
                }
                return false;
            }
            if toml::item_get(registries, "fsl").is_none() {
                let mut fsl = toml::new_table();
                toml::table_insert(
                    &mut fsl,
                    "index",
                    toml::text_item("sparse+https://crates.fsl.dev/api/v1/crates/"),
                );
                assert(toml::item_tree(fsl) == fsl_tree) by {
                    assert(toml::item_tree(fsl)->Table_0 =~= fsl_tree->Table_0);
                }
                toml::table_insert(registries, "fsl", fsl);
            }
        },
        None => {},
    }
    proof {
        let one = Toml::Table(seq![("fsl"@, fsl_tree)]);
        assert(toml::with_entry(Seq::empty(), "fsl"@, fsl_tree) =~= seq![("fsl"@, fsl_tree)]);
        toml::with_key_again(before, "registries"@, Toml::Table(Seq::empty()), one);
        if toml::lookup(before, "registries"@) is Some {
            toml::with_same_value(
                before,
                "registries"@,
                toml::lookup(before, "registries"@)->Some_0,
            );
        }
    }
    true
}

/// Ensures that a Cargo configuration names the FSL registry. One that it names already is
/// left as it is.
pub fn ensure_fsl_registry(config_content: &str) -> (r: Result<String, SyncError>)
    ensures
        match toml::toml_parse(config_content@) {
            Ok(tree) => match with_fsl_registry(tree) {
                Some(out) => r matches Ok(printed) && prints(printed@, out),
                None => r == Err::<String, SyncError>(SyncError::RegistriesNotTable),
            },
            Err(message) => r matches Err(SyncError::BadToml { input, message: m }) && input
                == TomlInput::CargoConfig && m@ == message,
        },
{
    match toml::parse_document(config_content) {
        Ok(parsed) => {
            let mut doc = parsed;
            if ensure_registry_in(&mut doc) {
                Ok(toml::print_document(&doc))
            } else {
                Err(SyncError::RegistriesNotTable)
            }
        },
        Err(message) => Err(SyncError::BadToml { input: TomlInput::CargoConfig, message }),
    }
}

/// Reads the workspace version in the root `Cargo.toml` of the source, which stands at `path`.
pub fn read_workspace_version(path: &str, content: &str) -> (r: Result<String, SyncError>)
    ensures
        match toml::toml_parse(content@) {
            Ok(tree) => match workspace_version(tree) {
                Some(version) => r matches Ok(out) && out@ == version,
                None => r == Err::<String, SyncError>(SyncError::NoWorkspaceVersion),
            },
            Err(message) => r matches Err(SyncError::BadVersionToml { path: p, message: m })
                && p@ == path@ && m@ == message,
        },
{
    match toml::parse_document(content) {
        Ok(doc) => match document_version(&doc) {
            Some(version) => Ok(version),
            None => Err(SyncError::NoWorkspaceVersion),
        },
        Err(message) => Err(SyncError::BadVersionToml { path: path.to_owned(), message }),
    }
}

/// The parts of the source's root manifest that the target's has no place for.
#[derive(Debug, Clone, Copy, PartialEq, Eq, Structural)]
pub struct Skipped {
    /// The version: the target has no `[workspace.package]`.
    pub version: bool,
    /// The dependencies: the target has no `[workspace]`.
    pub dependencies: bool,
}

/// There is something, and it is a table.
pub open spec fn is_a_table(found: Option<Toml>) -> bool {
    match found {
        Some(tree) => tree is Table,
        None => false,
    }
}

/// What a transformation skips: what the source has and the target has no place for.
pub open spec fn skipped(src: Toml, dst: Toml) -> Skipped {
    Skipped {
        version: workspace_version(src) is Some && !is_a_table(
            lookup_in(dst, "workspace"@, "package"@),
        ),
        dependencies: is_a_table(lookup_in(src, "workspace"@, "dependencies"@)) && !is_a_table(
            toml::lookup(dst, "workspace"@),
        ),
    }
}

/// Whether a document has a table under `key` of its workspace.
fn has_workspace_table(doc: &toml_edit::DocumentMut, key: &str) -> (r: bool)
    requires
        toml::doc_tree(*doc) is Table,
    ensures
        r == is_a_table(lookup_in(toml::doc_tree(*doc), "workspace"@, key@)),
{
    if let Some(ws) = toml::doc_get(doc, "workspace") {
        if let Some(found) = toml::item_get(ws, key) {
            return toml::is_table(found);
        }
    }
    false
}

/// What merging the source's root `Cargo.toml` into the target's skips, to warn of it; `None`
/// if one of the two is not TOML.
pub fn skipped_updates(src_content: &str, dst_content: &str) -> (r: Option<Skipped>)
    ensures
        match (toml::toml_parse(src_content@), toml::toml_parse(dst_content@)) {
            (Ok(src), Ok(dst)) => r == Some(skipped(src, dst)),
            _ => r is None,
        },
{
    let src = match toml::parse_document(src_content) {
        Ok(doc) => doc,
        Err(_) => {
            return None;
        },
    };
    let dst = match toml::parse_document(dst_content) {
        Ok(doc) => doc,
        Err(_) => {
            return None;
        },
    };
    let in_workspace = match toml::doc_get(&dst, "workspace") {
        Some(ws) => toml::is_table(ws),
        None => false,
    };
    Some(
        Skipped {
            version: document_version(&src).is_some() && !has_workspace_table(&dst, "package"),
            dependencies: has_workspace_table(&src, "dependencies") && !in_workspace,
        },
    )
}

} // verus!
