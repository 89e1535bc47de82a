//! TOML documents as `toml_edit` holds them, and what they contain.
//!
//! `toml_edit` parses, edits and prints the documents. A document's contents are seen
//! here as a tree of ordered entries; comments and layout are not part of it.
use vstd::prelude::*;

use crate::text;

verus! {

/// What a TOML item contains.
pub enum Toml {
    /// A table, inline or not: its entries in order, no key twice.
    Table(Seq<(Seq<char>, Toml)>),
    /// An array, or an array of tables.
    Array(Seq<Toml>),
    /// A string.
    Text(Seq<char>),
    /// Any other value, told apart by the text of its representation.
    Other(Seq<char>),
    /// An item that is, or holds at some depth, an empty slot (`Item::None`); and a
    /// document whose root is not a table. The parser never makes one.
    Irregular,
}

/// The entries of a table.
pub type Entries = Seq<(Seq<char>, Toml)>;

/// The position of the entry named `key`, or the number of entries if there is none.
pub open spec fn entry_index(e: Entries, key: Seq<char>) -> int
    decreases e.len(),
{
    if e.len() == 0 || e[0].0 == key {
        0
    } else {
        1 + entry_index(e.drop_first(), key)
    }
}

/// There is an entry named `key`.
pub open spec fn has_key(e: Entries, key: Seq<char>) -> bool {
    entry_index(e, key) < e.len()
}

/// The entries with that of `key` set to `value`: in its place if there was one, else
/// at the end.
pub open spec fn with_entry(e: Entries, key: Seq<char>, value: Toml) -> Entries {
    if has_key(e, key) {
        e.update(entry_index(e, key), (key, value))
    } else {
        e.push((key, value))
    }
}

/// The entries other than that of `key`, in order.
pub open spec fn without_entry(e: Entries, key: Seq<char>) -> Entries
    decreases e.len(),
{
    if e.len() == 0 {
        e
    } else if e[0].0 == key {
        without_entry(e.drop_first(), key)
    } else {
        seq![e[0]] + without_entry(e.drop_first(), key)
    }
}

/// The names of the entries, in order.
pub open spec fn keys(e: Entries) -> Seq<Seq<char>> {
    e.map_values(|entry: (Seq<char>, Toml)| entry.0)
}

/// What `tree` holds under `key`, if it is a table that has the key.
pub open spec fn lookup(tree: Toml, key: Seq<char>) -> Option<Toml> {
    match tree {
        Toml::Table(e) => if has_key(e, key) {
            Some(e[entry_index(e, key)].1)
        } else {
            None
        },
        _ => None,
    }
}

/// `tree` with `key` set to `value`, if it is a table.
pub open spec fn with_key(tree: Toml, key: Seq<char>, value: Toml) -> Toml {
    match tree {
        Toml::Table(e) => Toml::Table(with_entry(e, key, value)),
        _ => tree,
    }
}

/// `tree` without `key`, if it is a table.
pub open spec fn without_key(tree: Toml, key: Seq<char>) -> Toml {
    match tree {
        Toml::Table(e) => Toml::Table(without_entry(e, key)),
        _ => tree,
    }
}

/// `tree` with what it holds under `key`, if anything, replaced by what `f` makes of it.
pub open spec fn on_key(tree: Toml, key: Seq<char>, f: spec_fn(Toml) -> Toml) -> Toml {
    match lookup(tree, key) {
        Some(value) => with_key(tree, key, f(value)),
        None => tree,
    }
}

/// The entries of `tree`, or none if it is not a table.
pub open spec fn entries_of(tree: Option<Toml>) -> Entries {
    match tree {
        Some(Toml::Table(e)) => e,
        _ => Seq::empty(),
    }
}

/// What `entry_index` finds.
pub proof fn entry_index_finds(e: Entries, key: Seq<char>)
    ensures
        0 <= entry_index(e, key) <= e.len(),
        has_key(e, key) ==> e[entry_index(e, key)].0 == key,
        forall|j: int| 0 <= j < entry_index(e, key) ==> (#[trigger] e[j]).0 != key,
        has_key(e, key) <==> keys(e).contains(key),
    decreases e.len(),
{
    if e.len() > 0 && e[0].0 != key {
        entry_index_finds(e.drop_first(), key);
        assert forall|j: int| 0 <= j < entry_index(e, key) implies (#[trigger] e[j]).0 != key by {
            if j > 0 {
                assert(e.drop_first()[j - 1] == e[j]);
            }
        }
        if keys(e).contains(key) {
            let j = choose|j: int| 0 <= j < keys(e).len() && keys(e)[j] == key;
            assert(e[j].0 == key);
            assert(keys(e.drop_first())[j - 1] == key);
        }
        if has_key(e, key) {
            assert(keys(e)[entry_index(e, key)] == key);
        }
    } else if e.len() > 0 {
        assert(keys(e)[0] == key);
    }
}

/// With no key twice, `entry_index` of an entry's key is that entry's position.
pub proof fn entry_index_of(e: Entries, i: int)
    requires
        keys(e).no_duplicates(),
        0 <= i < e.len(),
    ensures
        entry_index(e, e[i].0) == i,
{
    let key = e[i].0;
    entry_index_finds(e, key);
    assert(keys(e)[i] == key);
    let p = entry_index(e, key);
    if p < i {
        assert(keys(e)[p] == key);
    }
}

/// Setting a key is seen under that key and under no other.
pub proof fn lookup_with_key(tree: Toml, key: Seq<char>, value: Toml, other: Seq<char>)
    requires
        tree is Table,
    ensures
        lookup(with_key(tree, key, value), other) == if other == key {
            Some(value)
        } else {
            lookup(tree, other)
        },
{
    let e = tree->Table_0;
    let set = with_entry(e, key, value);
    entry_index_finds(e, key);
    entry_index_finds(e, other);
    entry_index_finds(set, other);
    let p = entry_index(set, other);
    let q = entry_index(e, other);
    let at = entry_index(e, key);
    if other == key {
        assert(set[at].0 == key);
    } else {
        if q < e.len() {
            assert(set[q] == e[q]);
            if p < q {
                assert(set[p] == e[p]);
            }
        }
        if p < set.len() {
            assert(p != at);
            assert(set[p] == e[p]);
        }
    }
}

/// Dropping a key is seen under that key and under no other.
pub proof fn lookup_without_key(tree: Toml, key: Seq<char>, other: Seq<char>)
    ensures
        lookup(without_key(tree, key), other) == if other == key {
            None
        } else {
            lookup(tree, other)
        },
{
    if let Toml::Table(e) = tree {
        lookup_without_entry(e, key, other);
    }
}

proof fn lookup_without_entry(e: Entries, key: Seq<char>, other: Seq<char>)
    ensures
        lookup(Toml::Table(without_entry(e, key)), other) == if other == key {
            None
        } else {
            lookup(Toml::Table(e), other)
        },
    decreases e.len(),
{
    if e.len() > 0 {
        let rest = e.drop_first();
        lookup_without_entry(rest, key, other);
        entry_index_finds(rest, other);
        if e[0].0 != key {
            let out = without_entry(e, key);
            assert(out.drop_first() =~= without_entry(rest, key));
            entry_index_finds(out.drop_first(), other);
            if e[0].0 != other {
                assert(entry_index(out, other) == 1 + entry_index(out.drop_first(), other));
            }
        }
    }
}

/// Setting a key to what it holds already changes nothing.
pub proof fn with_same_value(tree: Toml, key: Seq<char>, value: Toml)
    requires
        lookup(tree, key) == Some(value),
    ensures
        with_key(tree, key, value) == tree,
{
    if let Toml::Table(e) = tree {
        entry_index_finds(e, key);
        assert(with_entry(e, key, value) =~= e);
    }
}

/// Of two values that a key is set to, the later stands.
pub proof fn with_key_again(tree: Toml, key: Seq<char>, first: Toml, second: Toml)
    ensures
        with_key(with_key(tree, key, first), key, second) == with_key(tree, key, second),
{
    if let Toml::Table(e) = tree {
        let once = with_entry(e, key, first);
        entry_index_finds(e, key);
        entry_index_finds(once, key);
        let p = entry_index(once, key);
        let q = entry_index(e, key);
        assert(once[q].0 == key);
        if p < q {
            assert(once[p] == e[p]);
        }
        assert(with_entry(once, key, second) =~= with_entry(e, key, second));
    }
}

/// Dropping a key that is not there changes nothing.
pub proof fn without_absent_key(tree: Toml, key: Seq<char>)
    requires
        lookup(tree, key) is None,
    ensures
        without_key(tree, key) == tree,
{
    if let Toml::Table(e) = tree {
        without_absent_entry(e, key);
    }
}

/// Dropping a key that was just added leaves what was there before.
pub proof fn without_appended_key(tree: Toml, key: Seq<char>, value: Toml)
    requires
        lookup(tree, key) is None,
    ensures
        without_key(with_key(tree, key, value), key) == tree,
{
    if let Toml::Table(e) = tree {
        without_appended_entry(e, key, value);
    }
}

proof fn without_appended_entry(e: Entries, key: Seq<char>, value: Toml)
    requires
        !has_key(e, key),
    ensures
        without_entry(e.push((key, value)), key) == e,
    decreases e.len(),
{
    let more = e.push((key, value));
    if e.len() > 0 {
        without_appended_entry(e.drop_first(), key, value);
        assert(more[0] == e[0]);
        assert(more.drop_first() =~= e.drop_first().push((key, value)));
        assert(seq![e[0]] + e.drop_first() =~= e);
    } else {
        assert(more.drop_first() =~= e);
        assert(without_entry(e, key) == e);
    }
}

proof fn without_absent_entry(e: Entries, key: Seq<char>)
    requires
        !has_key(e, key),
    ensures
        without_entry(e, key) == e,
    decreases e.len(),
{
    if e.len() > 0 {
        without_absent_entry(e.drop_first(), key);
        assert(seq![e[0]] + e.drop_first() =~= e);
    }
}

#[verifier::external_type_specification]
#[verifier::external_body]
pub struct ExItem(toml_edit::Item);

#[verifier::external_type_specification]
#[verifier::external_body]
pub struct ExDocumentMut(toml_edit::DocumentMut);

/// What an item of `toml_edit` contains.
pub uninterp spec fn item_tree(item: toml_edit::Item) -> Toml;

/// What a document of `toml_edit` contains.
pub uninterp spec fn doc_tree(doc: toml_edit::DocumentMut) -> Toml;

/// The text that `toml_edit` prints for a document.
pub uninterp spec fn doc_text(doc: toml_edit::DocumentMut) -> Seq<char>;

/// What `toml_edit` reads in a text, or what it says is wrong with it.
pub uninterp spec fn toml_parse(text: Seq<char>) -> Result<Toml, Seq<char>>;

/// `DocumentMut::from_str`: reads a document. Whether it succeeds, what the document
/// contains and the text of the error depend on the text alone; a document read from a
/// text is a table without empty slots.
#[verifier::external_body]
pub(crate) fn parse_document(text: &str) -> (r: Result<toml_edit::DocumentMut, String>)
    ensures
        match r {
            Ok(doc) => toml_parse(text@) == Ok::<Toml, Seq<char>>(doc_tree(doc)) && doc_tree(
                doc,
            ) is Table,
            Err(message) => toml_parse(text@) == Err::<Toml, Seq<char>>(message@),
        },
{
    match text.parse::<toml_edit::DocumentMut>() {
        Ok(doc) => Ok(doc),
        Err(error) => Err(error.to_string()),
    }
}

/// `DocumentMut::to_string`: prints a document. The text depends on the document, its
/// comments and layout included. That reading the text gives the contents back is not
/// claimed: an implicit table left without entries is not printed.
#[verifier::external_body]
pub(crate) fn print_document(doc: &toml_edit::DocumentMut) -> (r: String)
    requires
        doc_tree(*doc) is Table,
    ensures
        r@ == doc_text(*doc),
{
    doc.to_string()
}

/// `Table::get` on the root of a document: the item under `key`.
#[verifier::external_body]
pub(crate) fn doc_get<'a>(doc: &'a toml_edit::DocumentMut, key: &str) -> (r: Option<
    &'a toml_edit::Item,
>)
    requires
        doc_tree(*doc) is Table,
    ensures
        match r {
            Some(item) => lookup(doc_tree(*doc), key@) == Some(item_tree(*item)) && !(item_tree(
                *item,
            ) is Irregular),
            None => lookup(doc_tree(*doc), key@) is None,
        },
{
    doc.get(key)
}

/// `Table::get_mut` on the root of a document: the item under `key`, to be changed in
/// its place.
#[verifier::external_body]
pub(crate) fn doc_get_mut<'a>(doc: &'a mut toml_edit::DocumentMut, key: &str) -> (r: Option<
    &'a mut toml_edit::Item,
>)
    requires
        doc_tree(*old(doc)) is Table,
    ensures
        match r {
            Some(item) => {
                &&& lookup(doc_tree(*old(doc)), key@) == Some(item_tree(*item))
                &&& !(item_tree(*item) is Irregular)
                &&& !(item_tree(*final(item)) is Irregular) ==> doc_tree(*final(doc)) == with_key(
                    doc_tree(*old(doc)),
                    key@,
                    item_tree(*final(item)),
                )
            },
            None => {
                &&& lookup(doc_tree(*old(doc)), key@) is None
                &&& doc_tree(*final(doc)) == doc_tree(*old(doc))
            },
        },
{
    doc.get_mut(key)
}

/// `Table::insert` on the root of a document: sets `key`, in its place or at the end.
#[verifier::external_body]
pub(crate) fn doc_insert(doc: &mut toml_edit::DocumentMut, key: &str, item: toml_edit::Item)
    requires
        doc_tree(*old(doc)) is Table,
        !(item_tree(item) is Irregular),
    ensures
        doc_tree(*final(doc)) == with_key(doc_tree(*old(doc)), key@, item_tree(item)),
{
    doc.insert(key, item);
}

/// `Table::remove` on the root of a document: drops `key`; the other entries keep their
/// order.
#[verifier::external_body]
pub(crate) fn doc_remove(doc: &mut toml_edit::DocumentMut, key: &str)
    requires
        doc_tree(*old(doc)) is Table,
    ensures
        doc_tree(*final(doc)) == without_key(doc_tree(*old(doc)), key@),
{
    doc.remove(key);
}

/// `Item::is_table_like`: the item is a table, inline or not.
#[verifier::external_body]
pub(crate) fn is_table(item: &toml_edit::Item) -> (r: bool)
    requires
        !(item_tree(*item) is Irregular),
    ensures
        r == (item_tree(*item) is Table),
{
    item.is_table_like()
}

/// `Item::get` with a string: the item under `key`, if `item` is a table that has it.
#[verifier::external_body]
pub(crate) fn item_get<'a>(item: &'a toml_edit::Item, key: &str) -> (r: Option<
    &'a toml_edit::Item,
>)
    requires
        !(item_tree(*item) is Irregular),
    ensures
        match r {
            Some(found) => lookup(item_tree(*item), key@) == Some(item_tree(*found)) && !(item_tree(
                *found,
            ) is Irregular),
            None => lookup(item_tree(*item), key@) is None,
        },
{
    item.get(key)
}

/// `Item::get` with a number: the element at `i`, if `item` is an array that long. The
/// elements are those of a `Vec`, so a `usize` counts them.
#[verifier::external_body]
pub(crate) fn item_at<'a>(item: &'a toml_edit::Item, i: usize) -> (r: Option<&'a toml_edit::Item>)
    requires
        !(item_tree(*item) is Irregular),
    ensures
        match (r, item_tree(*item)) {
            (Some(found), Toml::Array(elements)) => i < elements.len() <= usize::MAX
                && elements[i as int] == item_tree(*found) && !(item_tree(*found) is Irregular),
            (Some(_), _) => false,
            (None, Toml::Array(elements)) => i >= elements.len(),
            (None, _) => true,
        },
{
    item.get(i)
}

/// `Item::as_str`: the characters of a string.
#[verifier::external_body]
pub(crate) fn item_str<'a>(item: &'a toml_edit::Item) -> (r: Option<&'a str>)
    ensures
        match r {
            Some(s) => item_tree(*item) == Toml::Text(s@),
            None => !(item_tree(*item) is Text),
        },
{
    item.as_str()
}

/// `TableLike::get_mut`: the item under `key`, to be changed in its place.
#[verifier::external_body]
pub(crate) fn table_get_mut<'a>(item: &'a mut toml_edit::Item, key: &str) -> (r: Option<
    &'a mut toml_edit::Item,
>)
    requires
        item_tree(*old(item)) is Table,
    ensures
        match r {
            Some(found) => {
                &&& lookup(item_tree(*old(item)), key@) == Some(item_tree(*found))
                &&& !(item_tree(*found) is Irregular)
                &&& !(item_tree(*final(found)) is Irregular) ==> item_tree(*final(item))
                    == with_key(item_tree(*old(item)), key@, item_tree(*final(found)))
            },
            None => {
                &&& lookup(item_tree(*old(item)), key@) is None
                &&& item_tree(*final(item)) == item_tree(*old(item))
            },
        },
{
    item.as_table_like_mut().unwrap().get_mut(key)
}

/// `TableLike::insert`: sets `key`, in its place or at the end. An inline table takes a
/// table as an inline one, with the same contents.
#[verifier::external_body]
pub(crate) fn table_insert(item: &mut toml_edit::Item, key: &str, value: toml_edit::Item)
    requires
        item_tree(*old(item)) is Table,
        !(item_tree(value) is Irregular),
    ensures
        item_tree(*final(item)) == with_key(item_tree(*old(item)), key@, item_tree(value)),
{
    item.as_table_like_mut().unwrap().insert(key, value);
}

/// `TableLike::remove`: drops `key`; the other entries keep their order.
#[verifier::external_body]
pub(crate) fn table_remove(item: &mut toml_edit::Item, key: &str)
    requires
        item_tree(*old(item)) is Table,
    ensures
        item_tree(*final(item)) == without_key(item_tree(*old(item)), key@),
{
    item.as_table_like_mut().unwrap().remove(key);
}

/// `TableLike::iter`: the keys of a table, in order, none twice.
#[verifier::external_body]
pub(crate) fn table_keys(item: &toml_edit::Item) -> (r: Vec<String>)
    requires
        item_tree(*item) is Table,
    ensures
        text::views(r@) == keys(entries_of(Some(item_tree(*item)))),
        text::views(r@).no_duplicates(),
{
    item.as_table_like().unwrap().iter().map(|(key, _)| key.to_owned()).collect()
}

/// `Item::clone`: an item with the same contents.
#[verifier::external_body]
pub(crate) fn copy_item(item: &toml_edit::Item) -> (r: toml_edit::Item)
    ensures
        item_tree(r) == item_tree(*item),
{
    item.clone()
}

/// `Table::new`: a table without entries.
#[verifier::external_body]
pub(crate) fn new_table() -> (r: toml_edit::Item)
    ensures
        item_tree(r) == Toml::Table(Seq::empty()),
{
    toml_edit::Item::Table(toml_edit::Table::new())
}

/// `toml_edit::value`: a string.
#[verifier::external_body]
pub(crate) fn text_item(s: &str) -> (r: toml_edit::Item)
    ensures
        item_tree(r) == Toml::Text(s@),
{
    toml_edit::value(s)
}

} // verus!
