//! Cargo manifests as the library reads and edits them.
//!
//! A TOML document is kept as its values that are not tables, each under the
//! keys that lead to it from the root; a table with no entries is kept as a
//! marker. A table is present wherever some entry lies below it.
use vstd::prelude::*;

use crate::text::{owned, str_eq};
use crate::toml_value::{TomlValue, TomlView};

pub mod document;
pub mod facts;

verus! {

/// An element of an array: any TOML value.
pub type ArrayItem = TomlValue;

pub type ItemView = TomlView;

/// A value that is not a table with entries.
pub enum Leaf {
    Str(String),
    Bool(bool),
    Array(Vec<ArrayItem>),
    /// An integer, float or date-time, kept as its TOML text.
    Raw(String),
    /// A table with no entries.
    EmptyTable,
}

pub enum LeafView {
    Str(Seq<char>),
    Bool(bool),
    Array(Seq<ItemView>),
    Raw(Seq<char>),
    EmptyTable,
}

pub open spec fn item_views(items: Seq<ArrayItem>) -> Seq<ItemView> {
    items.map_values(|item: ArrayItem| item@)
}

impl View for Leaf {
    type V = LeafView;

    open spec fn view(&self) -> LeafView {
        match self {
            Leaf::Str(s) => LeafView::Str(s@),
            Leaf::Bool(b) => LeafView::Bool(*b),
            Leaf::Array(items) => LeafView::Array(item_views(items@)),
            Leaf::Raw(s) => LeafView::Raw(s@),
            Leaf::EmptyTable => LeafView::EmptyTable,
        }
    }
}

pub open spec fn keys(path: Seq<String>) -> Seq<Seq<char>> {
    path.map_values(|key: String| key@)
}

/// A value and the keys that lead to it.
pub struct Entry {
    pub path: Vec<String>,
    pub value: Leaf,
}

impl View for Entry {
    type V = (Seq<Seq<char>>, LeafView);

    open spec fn view(&self) -> (Seq<Seq<char>>, LeafView) {
        (keys(self.path@), self.value@)
    }
}

pub struct Manifest {
    pub entries: Vec<Entry>,
}

pub open spec fn entry_views(entries: Seq<Entry>) -> Seq<(Seq<Seq<char>>, LeafView)> {
    entries.map_values(|e: Entry| e@)
}

impl View for Manifest {
    type V = Seq<(Seq<Seq<char>>, LeafView)>;

    open spec fn view(&self) -> Seq<(Seq<Seq<char>>, LeafView)> {
        entry_views(self.entries@)
    }
}

// ---------------------------------------------------------------------------
// Reading.

/// `path` lies at or below `prefix`.
pub open spec fn is_under(prefix: Seq<Seq<char>>, path: Seq<Seq<char>>) -> bool {
    prefix.len() <= path.len() && path.subrange(0, prefix.len() as int) == prefix
}

/// Something is present at `path`.
pub open spec fn holds(m: Seq<(Seq<Seq<char>>, LeafView)>, path: Seq<Seq<char>>) -> bool {
    exists|i: int| 0 <= i < m.len() && is_under(path, #[trigger] m[i].0)
}

/// A table is present at `path`; the root is always one.
pub open spec fn is_table(m: Seq<(Seq<Seq<char>>, LeafView)>, path: Seq<Seq<char>>) -> bool {
    path.len() == 0 || exists|i: int|
        0 <= i < m.len() && ((is_under(path, #[trigger] m[i].0) && m[i].0.len() > path.len()) || (
        m[i].0 == path && m[i].1 is EmptyTable))
}

/// The value at `path` when it is not a table.
pub open spec fn value_at(m: Seq<(Seq<Seq<char>>, LeafView)>, path: Seq<Seq<char>>) -> Option<
    LeafView,
>
    decreases m.len(),
{
    if m.len() == 0 {
        None
    } else if m[0].0 == path && !(m[0].1 is EmptyTable) {
        Some(m[0].1)
    } else {
        value_at(m.drop_first(), path)
    }
}

pub open spec fn str_at(m: Seq<(Seq<Seq<char>>, LeafView)>, path: Seq<Seq<char>>) -> Option<
    Seq<char>,
> {
    match value_at(m, path) {
        Some(LeafView::Str(s)) => Some(s),
        _ => None,
    }
}

pub open spec fn bool_at(m: Seq<(Seq<Seq<char>>, LeafView)>, path: Seq<Seq<char>>) -> Option<
    bool,
> {
    match value_at(m, path) {
        Some(LeafView::Bool(b)) => Some(b),
        _ => None,
    }
}

/// The keys directly below the table at `path`.
pub open spec fn is_key_below(
    m: Seq<(Seq<Seq<char>>, LeafView)>,
    path: Seq<Seq<char>>,
    key: Seq<char>,
) -> bool {
    exists|i: int|
        0 <= i < m.len() && is_under(path, #[trigger] m[i].0) && m[i].0.len() > path.len()
            && m[i].0[path.len() as int] == key
}

/// The array at `path` holds the string `s`.
pub open spec fn array_has_str(
    m: Seq<(Seq<Seq<char>>, LeafView)>,
    path: Seq<Seq<char>>,
    s: Seq<char>,
) -> bool {
    match value_at(m, path) {
        Some(LeafView::Array(items)) => items.contains(ItemView::Str(s)),
        _ => false,
    }
}

/// A key of the manifest.
pub fn key(s: &str) -> (r: String)
    ensures
        r@ == s@,
{
    owned(s)
}

fn path_eq(a: &Vec<String>, b: &[String]) -> (r: bool)
    ensures
        r == (keys(a@) == keys(b@)),
{
    if a.len() != b.len() {
        assert(keys(a@).len() != keys(b@).len());
        return false;
    }
    let mut i: usize = 0;
    while i < a.len()
        invariant
            a@.len() == b@.len(),
            i <= a@.len(),
            forall|j: int| 0 <= j < i ==> a@[j]@ == b@[j]@,
        decreases a@.len() - i,
    {
        if !str_eq(a[i].as_str(), b[i].as_str()) {
            assert(keys(a@)[i as int] != keys(b@)[i as int]);
            return false;
        }
        i += 1;
    }
    assert(keys(a@) =~= keys(b@));
    true
}

/// `path` lies at or below `prefix`.
pub(crate) fn path_under(prefix: &[String], path: &Vec<String>) -> (r: bool)
    ensures
        r == is_under(keys(prefix@), keys(path@)),
{
    if prefix.len() > path.len() {
        return false;
    }
    let mut i: usize = 0;
    while i < prefix.len()
        invariant
            prefix@.len() <= path@.len(),
            i <= prefix@.len(),
            forall|j: int| 0 <= j < i ==> path@[j]@ == prefix@[j]@,
        decreases prefix@.len() - i,
    {
        if !str_eq(path[i].as_str(), prefix[i].as_str()) {
            assert(keys(path@).subrange(0, prefix@.len() as int)[i as int] != keys(prefix@)[i as int]);
            return false;
        }
        i += 1;
    }
    assert(keys(path@).subrange(0, prefix@.len() as int) =~= keys(prefix@));
    true
}

impl Manifest {
    /// The value at `path`, when it is not a table.
    pub fn value(&self, path: &[String]) -> (r: Option<&Leaf>)
        ensures
            r matches Some(leaf) ==> value_at(self@, keys(path@)) == Some(leaf@),
            r is None ==> value_at(self@, keys(path@)) is None,
    {
        let ghost m = self@;
        let ghost p = keys(path@);
        let mut i: usize = 0;
        assert(m.skip(0) =~= m);
        while i < self.entries.len()
            invariant
                m == self@,
                p == keys(path@),
                i <= self.entries@.len(),
                value_at(m, p) == value_at(m.skip(i as int), p),
            decreases self.entries@.len() - i,
        {
            let entry = &self.entries[i];
            let ghost rest = m.skip(i as int);
            assert(rest[0] == entry@);
            assert(rest.drop_first() =~= m.skip(i + 1));
            if path_eq(&entry.path, path) {
                match &entry.value {
                    Leaf::EmptyTable => {},
                    value => {
                        return Some(value);
                    },
                }
            }
            i += 1;
        }
        None
    }

    /// The string at `path`.
    pub fn get_str(&self, path: &[String]) -> (r: Option<&String>)
        ensures
            r matches Some(s) ==> str_at(self@, keys(path@)) == Some(s@),
            r is None ==> str_at(self@, keys(path@)) is None,
    {
        match self.value(path) {
            Some(Leaf::Str(s)) => Some(s),
            _ => None,
        }
    }

    /// The boolean at `path`.
    pub fn get_bool(&self, path: &[String]) -> (r: Option<bool>)
        ensures
            r == bool_at(self@, keys(path@)),
    {
        match self.value(path) {
            Some(Leaf::Bool(b)) => Some(*b),
            _ => None,
        }
    }

    /// Something is present at `path`.
    pub fn holds(&self, path: &[String]) -> (r: bool)
        ensures
            r == holds(self@, keys(path@)),
    {
        let ghost m = self@;
        let mut i: usize = 0;
        while i < self.entries.len()
            invariant
                m == self@,
                i <= self.entries@.len(),
                forall|j: int| 0 <= j < i ==> !is_under(keys(path@), #[trigger] m[j].0),
            decreases self.entries@.len() - i,
        {
            assert(m[i as int] == self.entries@[i as int]@);
            if path_under(path, &self.entries[i].path) {
                assert(is_under(keys(path@), m[i as int].0));
                return true;
            }
            i += 1;
        }
        false
    }

    /// A table is present at `path`.
    pub fn is_table(&self, path: &[String]) -> (r: bool)
        ensures
            r == is_table(self@, keys(path@)),
    {
        if path.len() == 0 {
            return true;
        }
        let ghost m = self@;
        let ghost p = keys(path@);
        let mut i: usize = 0;
        while i < self.entries.len()
            invariant
                m == self@,
                p == keys(path@),
                p.len() > 0,
                i <= self.entries@.len(),
                forall|j: int|
                    0 <= j < i ==> !((is_under(p, #[trigger] m[j].0) && m[j].0.len() > p.len())
                        || (m[j].0 == p && m[j].1 is EmptyTable)),
            decreases self.entries@.len() - i,
        {
            let entry = &self.entries[i];
            assert(m[i as int] == entry@);
            assert(p.subrange(0, p.len() as int) =~= p);
            if path_under(path, &entry.path) {
                if entry.path.len() > path.len() {
                    assert(is_under(p, m[i as int].0) && m[i as int].0.len() > p.len());
                    return true;
                }
                if let Leaf::EmptyTable = &entry.value {
                    assert(keys(entry.path@) =~= p);
                    assert(m[i as int].0 == p && m[i as int].1 is EmptyTable);
                    return true;
                }
            }
            i += 1;
        }
        false
    }

    /// The array at `path` holds the string `s`.
    pub fn array_has_str(&self, path: &[String], s: &str) -> (r: bool)
        ensures
            r == array_has_str(self@, keys(path@), s@),
    {
        let found = self.value(path);
        match found {
            Some(Leaf::Array(items)) => {
                let ghost iv = item_views(items@);
                assert(value_at(self@, keys(path@)) == Some(LeafView::Array(iv)));
                let mut i: usize = 0;
                while i < items.len()
                    invariant
                        iv == item_views(items@),
                        value_at(self@, keys(path@)) == Some(LeafView::Array(iv)),
                        i <= items@.len(),
                        forall|j: int| 0 <= j < i ==> iv[j] != ItemView::Str(s@),
                    decreases items@.len() - i,
                {
                    assert(iv[i as int] == items@[i as int]@);
                    if let ArrayItem::Str(item) = &items[i] {
                        if str_eq(item.as_str(), s) {
                            assert(iv[i as int] == ItemView::Str(s@));
                            assert(iv.contains(ItemView::Str(s@)));
                            return true;
                        }
                    }
                    i += 1;
                }
                false
            },
            _ => false,
        }
    }

    /// The keys directly below the table at `path`, each once.
    pub fn keys_below(&self, path: &[String]) -> (r: Vec<String>)
        ensures
            forall|k: Seq<char>| #[trigger]
                keys(r@).contains(k) <==> is_key_below(self@, keys(path@), k),
    {
        let ghost m = self@;
        let ghost p = keys(path@);
        let mut found: Vec<String> = Vec::new();
        let mut i: usize = 0;
        while i < self.entries.len()
            invariant
                m == self@,
                p == keys(path@),
                i <= self.entries@.len(),
                forall|k: Seq<char>| #[trigger]
                    keys(found@).contains(k) <==> exists|j: int|
                        0 <= j < i && is_under(p, #[trigger] m[j].0) && m[j].0.len() > p.len()
                            && m[j].0[p.len() as int] == k,
            decreases self.entries@.len() - i,
        {
            let entry = &self.entries[i];
            assert(m[i as int] == entry@);
            if entry.path.len() > path.len() && path_under(path, &entry.path) {
                let next = entry.path[path.len()].as_str();
                assert(m[i as int].0[p.len() as int] == next@);
                let ghost before = keys(found@);
                found.push(key(next));
                assert(keys(found@) =~= before.push(next@));
                assert forall|k: Seq<char>| #[trigger]
                    keys(found@).contains(k) <==> exists|j: int|
                        0 <= j < i + 1 && is_under(p, #[trigger] m[j].0) && m[j].0.len() > p.len()
                            && m[j].0[p.len() as int] == k by {
                    if keys(found@).contains(k) {
                        if k == next@ {
                            assert(0 <= i < i + 1 && is_under(p, m[i as int].0) && m[i as int].0.len()
                                > p.len() && m[i as int].0[p.len() as int] == k);
                        } else {
                            let t = choose|t: int| 0 <= t < keys(found@).len() && keys(found@)[t] == k;
                            assert(t < before.len());
                            assert(before[t] == k);
                            assert(before.contains(k));
                        }
                    }
                    if exists|j: int|
                        0 <= j < i + 1 && is_under(p, #[trigger] m[j].0) && m[j].0.len() > p.len()
                            && m[j].0[p.len() as int] == k {
                        let j = choose|j: int|
                            0 <= j < i + 1 && is_under(p, #[trigger] m[j].0) && m[j].0.len() > p.len()
                                && m[j].0[p.len() as int] == k;
                        if j == i {
                            assert(keys(found@)[before.len() as int] == k);
                        } else {
                            assert(before.contains(k));
                            let t = choose|t: int| 0 <= t < before.len() && before[t] == k;
                            assert(keys(found@)[t] == k);
                        }
                    }
                }
            }
            i += 1;
        }
        assert forall|k: Seq<char>| #[trigger]
            keys(found@).contains(k) <==> is_key_below(m, p, k) by {}
        found
    }
}


// ---------------------------------------------------------------------------
// Editing.

pub open spec fn keep_entries(
    m: Seq<(Seq<Seq<char>>, LeafView)>,
    keep: spec_fn((Seq<Seq<char>>, LeafView)) -> bool,
) -> Seq<(Seq<Seq<char>>, LeafView)>
    decreases m.len(),
{
    if m.len() == 0 {
        m
    } else {
        let kept = keep_entries(m.drop_last(), keep);
        if keep(m.last()) {
            kept.push(m.last())
        } else {
            kept
        }
    }
}

/// The entry lies neither at nor below `under`, nor is it the empty-table marker at `marker`.
pub open spec fn stays(
    under: Seq<Seq<char>>,
    marker: Option<Seq<Seq<char>>>,
) -> spec_fn((Seq<Seq<char>>, LeafView)) -> bool {
    |e: (Seq<Seq<char>>, LeafView)|
        !is_under(under, e.0) && !(marker == Some(e.0) && e.1 is EmptyTable)
}

/// Everything at and below `path` removed.
pub open spec fn removed_under(
    m: Seq<(Seq<Seq<char>>, LeafView)>,
    path: Seq<Seq<char>>,
) -> Seq<(Seq<Seq<char>>, LeafView)> {
    keep_entries(m, stays(path, None))
}

/// `key` removed from the table at `table`, which stays present, empty if nothing is left.
pub open spec fn without_key(
    m: Seq<(Seq<Seq<char>>, LeafView)>,
    table: Seq<Seq<char>>,
    key: Seq<char>,
) -> Seq<(Seq<Seq<char>>, LeafView)> {
    let rest = removed_under(m, table.push(key));
    if table.len() > 0 && !holds(rest, table) {
        rest.push((table, LeafView::EmptyTable))
    } else {
        rest
    }
}


/// The entries placed below `path`, given relative to it; an empty table when there are none.
pub open spec fn placed(
    path: Seq<Seq<char>>,
    children: Seq<(Seq<Seq<char>>, LeafView)>,
) -> Seq<(Seq<Seq<char>>, LeafView)> {
    if children.len() == 0 {
        seq![(path, LeafView::EmptyTable)]
    } else {
        children.map_values(|c: (Seq<Seq<char>>, LeafView)| (path + c.0, c.1))
    }
}

/// The value at `path` replaced by the given entries: what lay at or below `path`
/// goes, and the parent table is no longer empty.
pub open spec fn replaced(
    m: Seq<(Seq<Seq<char>>, LeafView)>,
    path: Seq<Seq<char>>,
    children: Seq<(Seq<Seq<char>>, LeafView)>,
) -> Seq<(Seq<Seq<char>>, LeafView)> {
    keep_entries(m, stays(path, Some(path.drop_last()))) + placed(path, children)
}

/// A table made present at `path`: kept when there is one, created empty when
/// nothing is there, refused when another value is there.
pub open spec fn ensured_table(
    m: Seq<(Seq<Seq<char>>, LeafView)>,
    path: Seq<Seq<char>>,
) -> Option<Seq<(Seq<Seq<char>>, LeafView)>> {
    if is_table(m, path) {
        Some(m)
    } else if holds(m, path) {
        None
    } else {
        Some(replaced(m, path, seq![]))
    }
}

/// A single value given relative to the place it is put.
pub open spec fn single(value: LeafView) -> Seq<(Seq<Seq<char>>, LeafView)> {
    seq![(Seq::<Seq<char>>::empty(), value)]
}

/// A copy of the first `n` keys of a key path.
pub fn clone_prefix(path: &[String], n: usize) -> (r: Vec<String>)
    requires
        n <= path@.len(),
    ensures
        keys(r@) == keys(path@).subrange(0, n as int),
{
    let mut r: Vec<String> = Vec::new();
    let mut i: usize = 0;
    while i < n
        invariant
            n <= path@.len(),
            i <= n,
            keys(r@) == keys(path@).subrange(0, i as int),
        decreases n - i,
    {
        let ghost before = keys(r@);
        let k = key(path[i].as_str());
        assert(k@ == keys(path@)[i as int]);
        r.push(k);
        assert(keys(r@) =~= before.push(k@));
        assert(keys(r@) =~= keys(path@).subrange(0, i + 1));
        i += 1;
    }
    r
}

/// A copy of a key path.
pub fn clone_path(path: &[String]) -> (r: Vec<String>)
    ensures
        keys(r@) == keys(path@),
{
    let r = clone_prefix(path, path.len());
    assert(keys(path@).subrange(0, path@.len() as int) =~= keys(path@));
    r
}

/// `path` followed by `last`.
pub fn child_path(path: &[String], last: &str) -> (r: Vec<String>)
    ensures
        keys(r@) == keys(path@).push(last@),
{
    let mut r = clone_path(path);
    let ghost before = keys(r@);
    r.push(key(last));
    assert(keys(r@) =~= before.push(last@));
    r
}

impl Manifest {
    fn retain_entries(&mut self, under: &[String], marker: Option<&[String]>)
        ensures
            final(self)@ == keep_entries(
                old(self)@,
                stays(
                    keys(under@),
                    match marker {
                        Some(t) => Some(keys(t@)),
                        None => None,
                    },
                ),
            ),
    {
        let ghost keep = stays(
            keys(under@),
            match marker {
                Some(t) => Some(keys(t@)),
                None => None,
            },
        );
        let ghost original = self@;
        let ghost original_entries = self.entries@;
        let mut rest: Vec<Entry> = Vec::new();
        std::mem::swap(&mut rest, &mut self.entries);
        let n = rest.len();
        let mut i: usize = 0;
        assert(original.subrange(0, 0) =~= Seq::<(Seq<Seq<char>>, LeafView)>::empty());
        assert(original_entries.skip(0) =~= original_entries);
        while i < n
            invariant
                n == original.len(),
                original == entry_views(original_entries),
                i <= n,
                rest@ == original_entries.skip(i as int),
                self@ == keep_entries(original.subrange(0, i as int), keep),
                keep == stays(
                    keys(under@),
                    match marker {
                        Some(t) => Some(keys(t@)),
                        None => None,
                    },
                ),
            decreases n - i,
        {
            let entry = rest.remove(0);
            assert(entry == original_entries[i as int]);
            assert(rest@ =~= original_entries.skip(i + 1));
            let ghost head = original.subrange(0, i + 1);
            assert(head.drop_last() =~= original.subrange(0, i as int));
            assert(head.last() == entry@);
            let inside = path_under(under, &entry.path);
            let is_marker = match marker {
                Some(t) => match &entry.value {
                    Leaf::EmptyTable => path_eq(&entry.path, t),
                    _ => false,
                },
                None => false,
            };
            if !inside && !is_marker {
                let ghost before = self@;
                self.entries.push(entry);
                assert(self@ =~= before.push(entry@));
            }
            i += 1;
        }
        assert(original.subrange(0, n as int) =~= original);
    }

    /// Removes everything at and below `path`.
    pub fn remove(&mut self, path: &[String])
        ensures
            final(self)@ == removed_under(old(self)@, keys(path@)),
    {
        self.retain_entries(path, None);
    }

    /// Removes `key` from the table at `table`; the table stays, empty if nothing is left.
    pub fn remove_key(&mut self, table: &[String], key: &str)
        ensures
            final(self)@ == without_key(old(self)@, keys(table@), key@),
    {
        let child = child_path(table, key);
        self.retain_entries(child.as_slice(), None);
        if table.len() > 0 && !self.holds(table) {
            let ghost before = self@;
            let entry = Entry { path: clone_path(table), value: Leaf::EmptyTable };
            self.entries.push(entry);
            assert(self@ =~= before.push(entry@));
        }
    }

    /// Replaces the value at `path` with the given entries, whose paths are relative to `path`.
    pub fn replace(&mut self, path: &[String], children: Vec<Entry>)
        requires
            path@.len() >= 1,
        ensures
            final(self)@ == replaced(old(self)@, keys(path@), entry_views(children@)),
    {
        let parent = clone_prefix(path, path.len() - 1);
        assert(keys(path@).drop_last() =~= keys(path@).subrange(0, path@.len() - 1));
        self.retain_entries(path, Some(parent.as_slice()));
        let ghost kept = self@;
        if children.len() == 0 {
            let entry = Entry { path: clone_path(path), value: Leaf::EmptyTable };
            self.entries.push(entry);
            assert(self@ =~= kept + placed(keys(path@), entry_views(children@)));
            return;
        }
        let ghost all = entry_views(children@);
        let mut rest = children;
        let n = rest.len();
        let mut i: usize = 0;
        assert(all.subrange(0, 0).map_values(
            |c: (Seq<Seq<char>>, LeafView)| (keys(path@) + c.0, c.1),
        ) =~= Seq::<(Seq<Seq<char>>, LeafView)>::empty());
        assert(kept + Seq::<(Seq<Seq<char>>, LeafView)>::empty() =~= kept);
        while i < n
            invariant
                n == all.len(),
                i <= n,
                entry_views(rest@) == all.skip(i as int),
                rest@.len() == n - i,
                self@ == kept + all.subrange(0, i as int).map_values(
                    |c: (Seq<Seq<char>>, LeafView)| (keys(path@) + c.0, c.1),
                ),
            decreases n - i,
        {
            let ghost old_rest = rest@;
            let child = rest.remove(0);
            assert(entry_views(old_rest)[0] == all[i as int]);
            assert(child@ == all[i as int]);
            assert(entry_views(rest@) =~= entry_views(old_rest).drop_first());
            assert(entry_views(rest@) =~= all.skip(i + 1));
            let mut full = clone_path(path);
            let mut j: usize = 0;
            let ghost base = keys(full@);
            while j < child.path.len()
                invariant
                    j <= child.path@.len(),
                    keys(full@) == base + keys(child.path@).subrange(0, j as int),
                decreases child.path@.len() - j,
            {
                let ghost before = keys(full@);
                let k = key(child.path[j].as_str());
                full.push(k);
                assert(keys(full@) =~= before.push(k@));
                assert(keys(full@) =~= base + keys(child.path@).subrange(0, j + 1));
                j += 1;
            }
            assert(keys(child.path@).subrange(0, child.path@.len() as int) =~= keys(child.path@));
            let ghost before = self@;
            let entry = Entry { path: full, value: child.value };
            self.entries.push(entry);
            assert(self@ =~= before.push(entry@));
            assert(all.subrange(0, i + 1).map_values(
                |c: (Seq<Seq<char>>, LeafView)| (keys(path@) + c.0, c.1),
            ) =~= all.subrange(0, i as int).map_values(
                |c: (Seq<Seq<char>>, LeafView)| (keys(path@) + c.0, c.1),
            ).push(entry@));
            i += 1;
        }
        assert(all.subrange(0, n as int) =~= all);
    }

    /// Makes sure a table is present at `path`; false, and nothing changed, when
    /// another value is there.
    pub fn ensure_table(&mut self, path: &[String]) -> (r: bool)
        requires
            path@.len() >= 1,
        ensures
            r == ensured_table(old(self)@, keys(path@)) is Some,
            r ==> Some(final(self)@) == ensured_table(old(self)@, keys(path@)),
            !r ==> final(self)@ == old(self)@,
    {
        if self.is_table(path) {
            return true;
        }
        if self.holds(path) {
            return false;
        }
        let none: Vec<Entry> = Vec::new();
        assert(entry_views(none@) =~= Seq::<(Seq<Seq<char>>, LeafView)>::empty());
        self.replace(path, none);
        true
    }
}

} // verus!
