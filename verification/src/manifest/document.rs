//! A manifest read from a TOML document, and a TOML document made from a manifest.
use vstd::prelude::*;

use crate::manifest::{Entry, Leaf, LeafView, Manifest, child_path, entry_views, item_views, keys};
use crate::toml_value::{
    TomlValue, TomlView, parse_toml, print_toml, spec_toml_parse, spec_toml_print, toml_entry_views,
    toml_view, toml_views,
};

verus! {

/// The manifest value of a TOML value that is not a table with entries.
pub open spec fn leaf_of(v: TomlView) -> LeafView {
    match v {
        TomlView::Str(s) => LeafView::Str(s),
        TomlView::Bool(b) => LeafView::Bool(b),
        TomlView::Array(items) => LeafView::Array(items),
        TomlView::Other(s) => LeafView::Raw(s),
        TomlView::Table(_) => LeafView::EmptyTable,
    }
}

/// The entries of the value at `path`: its own value, or those of the table's
/// entries in order, or the marker of an empty table.
pub open spec fn flatten_value(path: Seq<Seq<char>>, v: TomlView) -> Seq<(Seq<Seq<char>>, LeafView)>
    decreases v,
{
    match v {
        TomlView::Table(inner) => if inner.len() > 0 {
            flatten_entries(path, inner)
        } else {
            seq![(path, LeafView::EmptyTable)]
        },
        _ => seq![(path, leaf_of(v))],
    }
}

pub open spec fn flatten_entries(
    prefix: Seq<Seq<char>>,
    entries: Seq<(Seq<char>, TomlView)>,
) -> Seq<(Seq<Seq<char>>, LeafView)>
    decreases entries,
{
    if entries.len() == 0 {
        seq![]
    } else {
        flatten_value(prefix.push(entries[0].0), entries[0].1) + flatten_entries(
            prefix,
            entries.drop_first(),
        )
    }
}

/// The manifest that a TOML document holds: the entries of its root table.
pub open spec fn flattened(document: TomlView) -> Seq<(Seq<Seq<char>>, LeafView)> {
    match document {
        TomlView::Table(entries) => flatten_entries(seq![], entries),
        _ => seq![],
    }
}

/// How many values a TOML value holds, itself included.
pub open spec fn toml_size(v: TomlView) -> nat
    decreases v,
{
    match v {
        TomlView::Table(inner) => 1 + entries_size(inner),
        _ => 1,
    }
}

pub open spec fn entries_size(entries: Seq<(Seq<char>, TomlView)>) -> nat
    decreases entries,
{
    if entries.len() == 0 {
        0
    } else {
        1 + toml_size(entries[0].1) + entries_size(entries.drop_first())
    }
}

proof fn lemma_views_map(items: Seq<TomlValue>)
    ensures
        toml_views(items) == item_views(items),
    decreases items.len(),
{
    if items.len() > 0 {
        lemma_views_map(items.drop_first());
        assert(toml_views(items) =~= item_views(items));
    }
}

proof fn lemma_entry_views_drop(entries: Seq<(String, TomlValue)>)
    requires
        entries.len() > 0,
    ensures
        toml_entry_views(entries.drop_first()) == toml_entry_views(entries).drop_first(),
        toml_entry_views(entries)[0] == (entries[0].0@, toml_view(entries[0].1)),
        toml_entry_views(entries).len() == entries.len(),
    decreases entries.len(),
{
    lemma_entry_views_len(entries);
    assert(toml_entry_views(entries.drop_first()) =~= toml_entry_views(entries).drop_first());
}

proof fn lemma_entry_views_len(entries: Seq<(String, TomlValue)>)
    ensures
        toml_entry_views(entries).len() == entries.len(),
    decreases entries.len(),
{
    if entries.len() > 0 {
        lemma_entry_views_len(entries.drop_first());
    }
}

fn flatten_value_into(path: Vec<String>, v: TomlValue, out: &mut Vec<Entry>)
    ensures
        entry_views(final(out)@) == entry_views(old(out)@) + flatten_value(keys(path@), v@),
    decreases toml_size(v@), 0nat,
{
    let ghost before = entry_views(out@);
    match v {
        TomlValue::Table(inner) => {
            if inner.len() > 0 {
                proof {
                    lemma_entry_views_len(inner@);
                }
                flatten_entries_into(&path, inner, out);
            } else {
                proof {
                    lemma_entry_views_len(inner@);
                }
                let e = Entry { path, value: Leaf::EmptyTable };
                out.push(e);
                assert(entry_views(out@) =~= before.push(e@));
            }
        },
        TomlValue::Str(s) => {
            let e = Entry { path, value: Leaf::Str(s) };
            out.push(e);
            assert(entry_views(out@) =~= before.push(e@));
        },
        TomlValue::Bool(b) => {
            let e = Entry { path, value: Leaf::Bool(b) };
            out.push(e);
            assert(entry_views(out@) =~= before.push(e@));
        },
        TomlValue::Array(items) => {
            proof {
                lemma_views_map(items@);
            }
            let e = Entry { path, value: Leaf::Array(items) };
            out.push(e);
            assert(entry_views(out@) =~= before.push(e@));
        },
        TomlValue::Other(s) => {
            let e = Entry { path, value: Leaf::Raw(s) };
            out.push(e);
            assert(entry_views(out@) =~= before.push(e@));
        },
    }
}

fn flatten_entries_into(prefix: &Vec<String>, entries: Vec<(String, TomlValue)>, out: &mut Vec<Entry>)
    ensures
        entry_views(final(out)@) == entry_views(old(out)@) + flatten_entries(
            keys(prefix@),
            toml_entry_views(entries@),
        ),
    decreases entries_size(toml_entry_views(entries@)), 1nat,
{
    let ghost before = entry_views(out@);
    let ghost views = toml_entry_views(entries@);
    if entries.len() == 0 {
        proof {
            lemma_entry_views_len(entries@);
        }
        assert(entry_views(out@) =~= before + flatten_entries(keys(prefix@), views));
        return;
    }
    proof {
        lemma_entry_views_drop(entries@);
    }
    let mut rest = entries;
    let (k, v) = rest.remove(0);
    assert(rest@ =~= entries@.drop_first());
    let path = child_path(prefix.as_slice(), k.as_str());
    flatten_value_into(path, v, out);
    flatten_entries_into(prefix, rest, out);
    assert(entry_views(out@) =~= before + flatten_entries(keys(prefix@), views));
}

/// The manifest that the document holds.
pub fn manifest_of(document: TomlValue) -> (m: Manifest)
    ensures
        m@ == flattened(document@),
{
    let mut out: Vec<Entry> = Vec::new();
    match document {
        TomlValue::Table(entries) => {
            let prefix: Vec<String> = Vec::new();
            assert(keys(prefix@) =~= Seq::<Seq<char>>::empty());
            flatten_entries_into(&prefix, entries, &mut out);
        },
        _ => {},
    }
    assert(entry_views(out@) =~= flattened(document@));
    Manifest { entries: out }
}

/// The TOML value of a manifest value.
pub open spec fn toml_of_leaf(leaf: LeafView) -> TomlView {
    match leaf {
        LeafView::Str(s) => TomlView::Str(s),
        LeafView::Bool(b) => TomlView::Bool(b),
        LeafView::Array(items) => TomlView::Array(items),
        LeafView::Raw(s) => TomlView::Other(s),
        LeafView::EmptyTable => TomlView::Table(seq![]),
    }
}

/// `i` is the first entry with key `k`.
pub open spec fn first_key_at(entries: Seq<(Seq<char>, TomlView)>, k: Seq<char>, i: int) -> bool {
    &&& 0 <= i < entries.len()
    &&& entries[i].0 == k
    &&& forall|j: int| 0 <= j < i ==> (#[trigger] entries[j]).0 != k
}

/// The index of the first entry with key `k`, or -1.
pub open spec fn key_index(entries: Seq<(Seq<char>, TomlView)>, k: Seq<char>) -> int {
    if exists|i: int| #[trigger] first_key_at(entries, k, i) {
        choose|i: int| #[trigger] first_key_at(entries, k, i)
    } else {
        -1
    }
}

/// The table's entries with `leaf` put at `path` below it: a value replaces
/// the first entry with its key or comes last; an empty table is added only
/// where the key is missing; a key on the way that holds no table gets a
/// table in its place.
pub open spec fn insert_leaf(
    entries: Seq<(Seq<char>, TomlView)>,
    path: Seq<Seq<char>>,
    leaf: LeafView,
) -> Seq<(Seq<char>, TomlView)>
    decreases path.len(),
{
    if path.len() == 0 {
        entries
    } else {
        let k = path[0];
        let i = key_index(entries, k);
        if path.len() == 1 {
            if leaf is EmptyTable {
                if i >= 0 {
                    entries
                } else {
                    entries.push((k, TomlView::Table(seq![])))
                }
            } else if i >= 0 {
                entries.update(i, (k, toml_of_leaf(leaf)))
            } else {
                entries.push((k, toml_of_leaf(leaf)))
            }
        } else {
            let inner = if i >= 0 {
                match entries[i].1 {
                    TomlView::Table(t) => t,
                    _ => seq![],
                }
            } else {
                seq![]
            };
            let t = TomlView::Table(insert_leaf(inner, path.drop_first(), leaf));
            if i >= 0 {
                entries.update(i, (k, t))
            } else {
                entries.push((k, t))
            }
        }
    }
}

/// The entries of `m`, put one after the other into the table `table`.
pub open spec fn nest_all(
    table: Seq<(Seq<char>, TomlView)>,
    m: Seq<(Seq<Seq<char>>, LeafView)>,
) -> Seq<(Seq<char>, TomlView)>
    decreases m.len(),
{
    if m.len() == 0 {
        table
    } else {
        nest_all(insert_leaf(table, m[0].0, m[0].1), m.drop_first())
    }
}

/// The TOML document of a manifest.
pub open spec fn nested(m: Seq<(Seq<Seq<char>>, LeafView)>) -> TomlView {
    TomlView::Table(nest_all(seq![], m))
}

pub open spec fn entry_view_of(e: (String, TomlValue)) -> (Seq<char>, TomlView) {
    (e.0@, toml_view(e.1))
}

proof fn lemma_entry_views_map(entries: Seq<(String, TomlValue)>)
    ensures
        toml_entry_views(entries) == entries.map_values(|e: (String, TomlValue)| entry_view_of(e)),
    decreases entries.len(),
{
    if entries.len() > 0 {
        lemma_entry_views_map(entries.drop_first());
        assert(toml_entry_views(entries) =~= entries.map_values(
            |e: (String, TomlValue)| entry_view_of(e),
        ));
    } else {
        assert(toml_entry_views(entries) =~= entries.map_values(
            |e: (String, TomlValue)| entry_view_of(e),
        ));
    }
}

fn leaf_value(leaf: Leaf) -> (r: TomlValue)
    ensures
        r@ == toml_of_leaf(leaf@),
{
    match leaf {
        Leaf::Str(s) => TomlValue::Str(s),
        Leaf::Bool(b) => TomlValue::Bool(b),
        Leaf::Array(items) => {
            proof {
                lemma_views_map(items@);
            }
            TomlValue::Array(items)
        },
        Leaf::Raw(s) => TomlValue::Other(s),
        Leaf::EmptyTable => {
            let t: Vec<(String, TomlValue)> = Vec::new();
            assert(toml_entry_views(t@) =~= Seq::<(Seq<char>, TomlView)>::empty());
            TomlValue::Table(t)
        },
    }
}

fn find_key(entries: &Vec<(String, TomlValue)>, k: &str) -> (r: Option<usize>)
    ensures
        match r {
            Some(i) => key_index(toml_entry_views(entries@), k@) == i as int,
            None => key_index(toml_entry_views(entries@), k@) == -1,
        },
{
    let ghost views = toml_entry_views(entries@);
    proof {
        lemma_entry_views_map(entries@);
    }
    let mut i: usize = 0;
    while i < entries.len()
        invariant
            views == entries@.map_values(|e: (String, TomlValue)| entry_view_of(e)),
            views == toml_entry_views(entries@),
            i <= entries@.len(),
            forall|j: int| 0 <= j < i ==> (#[trigger] views[j]).0 != k@,
        decreases entries@.len() - i,
    {
        assert(views[i as int] == entry_view_of(entries@[i as int]));
        if crate::text::str_eq(entries[i].0.as_str(), k) {
            assert(first_key_at(views, k@, i as int));
            assert forall|x: int| #[trigger] first_key_at(views, k@, x) implies x == i by {
                if x < i {
                    assert(views[x].0 != k@);
                } else if x > i {
                    assert(views[i as int].0 != k@);
                }
            }
            let ghost c = choose|x: int| #[trigger] first_key_at(views, k@, x);
            assert(first_key_at(views, k@, c));
            assert(c == i);
            return Some(i);
        }
        i += 1;
    }
    assert forall|x: int| !#[trigger] first_key_at(views, k@, x) by {
        if 0 <= x < views.len() {
            assert(views[x].0 != k@);
        }
    }
    None
}

fn insert_leaf_into(entries: Vec<(String, TomlValue)>, path: &[String], from: usize, leaf: Leaf) -> (r: Vec<
    (String, TomlValue),
>)
    requires
        from <= path@.len(),
    ensures
        toml_entry_views(r@) == insert_leaf(
            toml_entry_views(entries@),
            keys(path@).skip(from as int),
            leaf@,
        ),
    decreases path@.len() - from,
{
    let ghost views = toml_entry_views(entries@);
    let ghost rest = keys(path@).skip(from as int);
    proof {
        lemma_entry_views_map(entries@);
    }
    if from == path.len() {
        assert(rest.len() == 0);
        return entries;
    }
    assert(rest[0] == path@[from as int]@);
    let k = path[from].as_str();
    let found = find_key(&entries, k);
    let mut entries = entries;
    if from + 1 == path.len() {
        assert(rest.len() == 1);
        match leaf {
            Leaf::EmptyTable => {
                match found {
                    Some(_) => entries,
                    None => {
                        let t: Vec<(String, TomlValue)> = Vec::new();
                        assert(toml_entry_views(t@) =~= Seq::<(Seq<char>, TomlView)>::empty());
                        entries.push((crate::text::owned(k), TomlValue::Table(t)));
                        proof {
                            lemma_entry_views_map(entries@);
                        }
                        assert(toml_entry_views(entries@) =~= insert_leaf(views, rest, leaf@));
                        entries
                    },
                }
            },
            other => {
                let ghost lv = other@;
                let value = leaf_value(other);
                match found {
                    Some(i) => {
                        entries.set(i, (crate::text::owned(k), value));
                        proof {
                            lemma_entry_views_map(entries@);
                        }
                        assert(toml_entry_views(entries@) =~= insert_leaf(views, rest, lv));
                        entries
                    },
                    None => {
                        entries.push((crate::text::owned(k), value));
                        proof {
                            lemma_entry_views_map(entries@);
                        }
                        assert(toml_entry_views(entries@) =~= insert_leaf(views, rest, lv));
                        entries
                    },
                }
            },
        }
    } else {
        assert(rest.drop_first() =~= keys(path@).skip(from + 1));
        match found {
            Some(i) => {
                let (key, old) = entries.remove(i);
                let ghost old_view = toml_view(old);
                assert(views[i as int] == entry_view_of((key, old)));
                let inner = match old {
                    TomlValue::Table(t) => t,
                    _ => {
                        let t: Vec<(String, TomlValue)> = Vec::new();
                        assert(toml_entry_views(t@) =~= Seq::<(Seq<char>, TomlView)>::empty());
                        t
                    },
                };
                assert(toml_entry_views(inner@) == match old_view {
                    TomlView::Table(t) => t,
                    _ => seq![],
                });
                let nested_inner = insert_leaf_into(inner, path, from + 1, leaf);
                entries.insert(i, (key, TomlValue::Table(nested_inner)));
                proof {
                    lemma_entry_views_map(entries@);
                }
                assert(toml_entry_views(entries@) =~= insert_leaf(views, rest, leaf@));
                entries
            },
            None => {
                let t: Vec<(String, TomlValue)> = Vec::new();
                assert(toml_entry_views(t@) =~= Seq::<(Seq<char>, TomlView)>::empty());
                let nested_inner = insert_leaf_into(t, path, from + 1, leaf);
                entries.push((crate::text::owned(k), TomlValue::Table(nested_inner)));
                proof {
                    lemma_entry_views_map(entries@);
                }
                assert(toml_entry_views(entries@) =~= insert_leaf(views, rest, leaf@));
                entries
            },
        }
    }
}

/// The TOML document of the manifest.
pub fn document_of(m: Manifest) -> (d: TomlValue)
    ensures
        d@ == nested(m@),
{
    let ghost all = m@;
    let mut table: Vec<(String, TomlValue)> = Vec::new();
    assert(toml_entry_views(table@) =~= Seq::<(Seq<char>, TomlView)>::empty());
    let mut rest = m.entries;
    while rest.len() > 0
        invariant
            nest_all(seq![], all) == nest_all(toml_entry_views(table@), entry_views(rest@)),
        decreases rest@.len(),
    {
        let ghost before = entry_views(rest@);
        let e = rest.remove(0);
        assert(entry_views(rest@) =~= before.drop_first());
        assert(before[0] == e@);
        let Entry { path, value } = e;
        assert(keys(path@).skip(0) =~= keys(path@));
        table = insert_leaf_into(table, path.as_slice(), 0, value);
    }
    TomlValue::Table(table)
}

/// The manifest that a TOML text holds; none when the text is not TOML.
pub fn read_manifest(text: &str) -> (r: Option<Manifest>)
    ensures
        match spec_toml_parse(text@) {
            Some(d) => r matches Some(m) && m@ == flattened(d),
            None => r is None,
        },
{
    match parse_toml(text) {
        Some(document) => Some(manifest_of(document)),
        None => None,
    }
}

/// The TOML text of a manifest; none when the manifest's values cannot be written.
pub fn manifest_text(m: Manifest) -> (r: Option<String>)
    ensures
        match spec_toml_print(nested(m@)) {
            Some(s) => r matches Some(t) && t@ == s,
            None => r is None,
        },
{
    let document = document_of(m);
    print_toml(&document)
}

} // verus!
