//! The applications of a source workspace.
use vstd::prelude::*;

use crate::text;

verus! {

/// An entry of the source directory.
#[derive(Debug, Clone, PartialEq, Eq)]
pub struct SourceEntry {
    /// Its name, if that is Unicode.
    pub name: Option<String>,
    /// It is a directory.
    pub is_dir: bool,
    /// It holds a `Cargo.toml`.
    pub has_manifest: bool,
}

/// The name of an entry that is an application: a directory with a `Cargo.toml`.
pub open spec fn app_name(entry: SourceEntry) -> Option<Seq<char>> {
    if entry.is_dir && entry.has_manifest {
        match entry.name {
            Some(name) => Some(name@),
            None => None,
        }
    } else {
        None
    }
}

/// The names of the applications among the entries.
pub open spec fn app_names(entries: Seq<SourceEntry>) -> Seq<Seq<char>>
    decreases entries.len(),
{
    if entries.len() == 0 {
        Seq::empty()
    } else {
        match app_name(entries.last()) {
            Some(name) => app_names(entries.drop_last()).push(name),
            None => app_names(entries.drop_last()),
        }
    }
}

/// The applications among the entries of the source directory, sorted by name.
pub fn discover_apps(entries: &[SourceEntry]) -> (r: Vec<String>)
    ensures
        text::is_sorted(text::views(r@)),
        text::views(r@).to_multiset() == app_names(entries@).to_multiset(),
{
    let mut names: Vec<String> = Vec::new();
    let mut i: usize = 0;
    assert(text::views(names@) =~= app_names(entries@.take(0)));
    while i < entries.len()
        invariant
            i <= entries.len(),
            text::views(names@) == app_names(entries@.take(i as int)),
        decreases entries.len() - i,
    {
        let ghost before = names@;
        proof {
            assert(entries@.take(i + 1).drop_last() =~= entries@.take(i as int));
        }
        if entries[i].is_dir && entries[i].has_manifest {
            if let Some(name) = &entries[i].name {
                names.push(name.clone());
                assert(text::views(names@) =~= text::views(before).push(name@));
            }
        }
        i += 1;
    }
    assert(entries@.take(i as int) =~= entries@);
    text::sort_texts(names.as_slice())
}

/// The applications that are found do not depend on the order in which the source directory is
/// listed: of two listings with the same applications, the sorted names are the same.
pub proof fn listing_order_does_not_matter(
    one: Seq<SourceEntry>,
    other: Seq<SourceEntry>,
    names: Seq<Seq<char>>,
    others: Seq<Seq<char>>,
)
    requires
        app_names(one).to_multiset() == app_names(other).to_multiset(),
        text::is_sorted(names),
        names.to_multiset() == app_names(one).to_multiset(),
        text::is_sorted(others),
        others.to_multiset() == app_names(other).to_multiset(),
    ensures
        names == others,
{
    text::sorted_is_unique(names, others);
}

/// An entry makes an application exactly if it is a directory with a manifest and a Unicode name;
/// each such entry makes one, under its name, and the others change nothing.
pub proof fn apps_are_found_entry_by_entry(
    before: Seq<SourceEntry>,
    entry: SourceEntry,
    after: Seq<SourceEntry>,
)
    ensures
        app_names(before + seq![entry] + after) == app_names(before) + (match entry.name {
            Some(name) => if entry.is_dir && entry.has_manifest {
                seq![name@]
            } else {
                Seq::empty()
            },
            None => Seq::empty(),
        }) + app_names(after),
        app_names(Seq::empty()).len() == 0,
    decreases after.len(),
{
    let all = before + seq![entry] + after;
    if after.len() == 0 {
        assert(all.drop_last() =~= before);
        assert(all.last() == entry);
    } else {
        assert(all.drop_last() =~= before + seq![entry] + after.drop_last());
        assert(all.last() == after.last());
        apps_are_found_entry_by_entry(before, entry, after.drop_last());
    }
    let own: Seq<Seq<char>> = match entry.name {
        Some(name) => if entry.is_dir && entry.has_manifest {
            seq![name@]
        } else {
            Seq::empty()
        },
        None => Seq::empty(),
    };
    assert(app_names(all) =~= app_names(before) + own + app_names(after));
}

} // verus!
