//! What the manifest edits keep and what they put in place, stated over the
//! entries a manifest holds.
use vstd::prelude::*;

use crate::manifest::{
    LeafView, ensured_table, holds, is_table, is_under, keep_entries, placed, removed_under,
    replaced, stays, value_at, without_key,
};

verus! {

/// The manifest holds this entry.
pub open spec fn has(m: Seq<(Seq<Seq<char>>, LeafView)>, e: (Seq<Seq<char>>, LeafView)) -> bool {
    m.contains(e)
}

pub proof fn lemma_push_has(
    m: Seq<(Seq<Seq<char>>, LeafView)>,
    x: (Seq<Seq<char>>, LeafView),
    e: (Seq<Seq<char>>, LeafView),
)
    ensures
        has(m.push(x), e) <==> has(m, e) || e == x,
{
    if has(m, e) {
        let i = choose|i: int| 0 <= i < m.len() && m[i] == e;
        assert(m.push(x)[i] == e);
    }
    if e == x {
        assert(m.push(x)[m.len() as int] == e);
    }
    if has(m.push(x), e) && e != x {
        let i = choose|i: int| 0 <= i < m.push(x).len() && m.push(x)[i] == e;
        assert(i < m.len());
        assert(m[i] == e);
    }
}

pub proof fn lemma_concat_has(
    a: Seq<(Seq<Seq<char>>, LeafView)>,
    b: Seq<(Seq<Seq<char>>, LeafView)>,
    e: (Seq<Seq<char>>, LeafView),
)
    ensures
        has(a + b, e) <==> has(a, e) || has(b, e),
{
    if has(a, e) {
        let i = choose|i: int| 0 <= i < a.len() && a[i] == e;
        assert((a + b)[i] == e);
    }
    if has(b, e) {
        let i = choose|i: int| 0 <= i < b.len() && b[i] == e;
        assert((a + b)[a.len() + i] == e);
    }
    if has(a + b, e) {
        let i = choose|i: int| 0 <= i < (a + b).len() && (a + b)[i] == e;
        if i < a.len() {
            assert(a[i] == e);
        } else {
            assert(b[i - a.len()] == e);
        }
    }
}

/// Keeping entries keeps exactly those that pass.
pub proof fn lemma_keep_has(
    m: Seq<(Seq<Seq<char>>, LeafView)>,
    keep: spec_fn((Seq<Seq<char>>, LeafView)) -> bool,
    e: (Seq<Seq<char>>, LeafView),
)
    ensures
        has(keep_entries(m, keep), e) <==> has(m, e) && keep(e),
    decreases m.len(),
{
    if m.len() > 0 {
        lemma_keep_has(m.drop_last(), keep, e);
        lemma_push_has(m.drop_last(), m.last(), e);
        assert(m.drop_last().push(m.last()) =~= m);
        let kept = keep_entries(m.drop_last(), keep);
        if keep(m.last()) {
            lemma_push_has(kept, m.last(), e);
        }
    } else {
        assert(keep_entries(m, keep) == m);
    }
}

/// The entries placed below `path`.
pub proof fn lemma_placed_has(
    path: Seq<Seq<char>>,
    children: Seq<(Seq<Seq<char>>, LeafView)>,
    e: (Seq<Seq<char>>, LeafView),
)
    ensures
        has(placed(path, children), e) <==> if children.len() == 0 {
            e == (path, LeafView::EmptyTable)
        } else {
            exists|i: int|
                0 <= i < children.len() && e == (path + (#[trigger] children[i]).0, children[i].1)
        },
{
    if children.len() == 0 {
        let p = placed(path, children);
        assert(p == seq![(path, LeafView::EmptyTable)]);
        if e == (path, LeafView::EmptyTable) {
            assert(p[0] == e);
        }
    } else {
        let p = placed(path, children);
        if has(p, e) {
            let k = choose|k: int| 0 <= k < p.len() && p[k] == e;
            assert(e == (path + children[k].0, children[k].1));
        }
        if exists|i: int|
            0 <= i < children.len() && e == (path + (#[trigger] children[i]).0, children[i].1) {
            let i = choose|i: int|
                0 <= i < children.len() && e == (path + (#[trigger] children[i]).0, children[i].1);
            assert(p[i] == e);
        }
    }
}

/// What replacing the value at `path` leaves: the entries elsewhere (other than
/// an empty-table marker at the parent) and the new ones.
pub proof fn lemma_replaced_has(
    m: Seq<(Seq<Seq<char>>, LeafView)>,
    path: Seq<Seq<char>>,
    children: Seq<(Seq<Seq<char>>, LeafView)>,
    e: (Seq<Seq<char>>, LeafView),
)
    ensures
        has(replaced(m, path, children), e) <==> (has(m, e) && stays(path, Some(path.drop_last()))(
            e,
        )) || has(placed(path, children), e),
{
    lemma_keep_has(m, stays(path, Some(path.drop_last())), e);
    lemma_concat_has(
        keep_entries(m, stays(path, Some(path.drop_last()))),
        placed(path, children),
        e,
    );
}

pub proof fn lemma_removed_under_has(
    m: Seq<(Seq<Seq<char>>, LeafView)>,
    path: Seq<Seq<char>>,
    e: (Seq<Seq<char>>, LeafView),
)
    ensures
        has(removed_under(m, path), e) <==> has(m, e) && !is_under(path, e.0),
{
    lemma_keep_has(m, stays(path, None), e);
}

pub proof fn lemma_without_key_has(
    m: Seq<(Seq<Seq<char>>, LeafView)>,
    table: Seq<Seq<char>>,
    key: Seq<char>,
    e: (Seq<Seq<char>>, LeafView),
)
    ensures
        has(without_key(m, table, key), e) <==> (has(m, e) && !is_under(table.push(key), e.0)) || (
        e == (table, LeafView::EmptyTable) && table.len() > 0 && !holds(
            removed_under(m, table.push(key)),
            table,
        )),
{
    lemma_removed_under_has(m, table.push(key), e);
    let rest = removed_under(m, table.push(key));
    if table.len() > 0 && !holds(rest, table) {
        lemma_push_has(rest, (table, LeafView::EmptyTable), e);
    }
}

/// The value at `path` is `v` when the manifest holds it there and no other value.
pub proof fn lemma_value_at_only(m: Seq<(Seq<Seq<char>>, LeafView)>, path: Seq<Seq<char>>, v: LeafView)
    requires
        !(v is EmptyTable),
        has(m, (path, v)),
        forall|e: (Seq<Seq<char>>, LeafView)|
            has(m, e) && e.0 == path && !(e.1 is EmptyTable) ==> e.1 == v,
    ensures
        value_at(m, path) == Some(v),
    decreases m.len(),
{
    if m[0].0 == path && !(m[0].1 is EmptyTable) {
        assert(has(m, m[0]));
    } else {
        let rest = m.drop_first();
        let i = choose|i: int| 0 <= i < m.len() && m[i] == (path, v);
        assert(i > 0);
        assert(rest[i - 1] == (path, v));
        assert forall|e: (Seq<Seq<char>>, LeafView)|
            has(rest, e) && e.0 == path && !(e.1 is EmptyTable) implies e.1 == v by {
            let k = choose|k: int| 0 <= k < rest.len() && rest[k] == e;
            assert(m[k + 1] == e);
            assert(has(m, e));
        }
        lemma_value_at_only(rest, path, v);
    }
}

/// `holds` and `is_table` by the entries held.
pub proof fn lemma_holds_has(m: Seq<(Seq<Seq<char>>, LeafView)>, path: Seq<Seq<char>>)
    ensures
        holds(m, path) <==> exists|e: (Seq<Seq<char>>, LeafView)|
            #[trigger] has(m, e) && is_under(path, e.0),
{
    if holds(m, path) {
        let i = choose|i: int| 0 <= i < m.len() && is_under(path, #[trigger] m[i].0);
        assert(has(m, m[i]));
    }
    if exists|e: (Seq<Seq<char>>, LeafView)| #[trigger] has(m, e) && is_under(path, e.0) {
        let e = choose|e: (Seq<Seq<char>>, LeafView)| #[trigger] has(m, e) && is_under(path, e.0);
        let i = choose|i: int| 0 <= i < m.len() && m[i] == e;
        assert(is_under(path, m[i].0));
    }
}

pub open spec fn table_witness(path: Seq<Seq<char>>, e: (Seq<Seq<char>>, LeafView)) -> bool {
    (is_under(path, e.0) && e.0.len() > path.len()) || (e.0 == path && e.1 is EmptyTable)
}

pub proof fn lemma_is_table_has(m: Seq<(Seq<Seq<char>>, LeafView)>, path: Seq<Seq<char>>)
    ensures
        is_table(m, path) <==> path.len() == 0 || exists|e: (Seq<Seq<char>>, LeafView)|
            #[trigger] has(m, e) && table_witness(path, e),
{
    if path.len() > 0 && is_table(m, path) {
        let i = choose|i: int|
            0 <= i < m.len() && ((is_under(path, #[trigger] m[i].0) && m[i].0.len() > path.len())
                || (m[i].0 == path && m[i].1 is EmptyTable));
        assert(has(m, m[i]));
        assert(table_witness(path, m[i]));
    }
    if path.len() > 0 && exists|e: (Seq<Seq<char>>, LeafView)|
        #[trigger] has(m, e) && table_witness(path, e) {
        let e = choose|e: (Seq<Seq<char>>, LeafView)| #[trigger] has(m, e) && table_witness(path, e);
        let i = choose|i: int| 0 <= i < m.len() && m[i] == e;
        assert(table_witness(path, m[i]));
    }
}

/// The two manifests hold the same entries at the paths of `region`.
pub open spec fn agree(
    a: Seq<(Seq<Seq<char>>, LeafView)>,
    b: Seq<(Seq<Seq<char>>, LeafView)>,
    region: spec_fn(Seq<Seq<char>>) -> bool,
) -> bool {
    forall|e: (Seq<Seq<char>>, LeafView)|
        #![trigger has(a, e)]
        #![trigger has(b, e)]
        region(e.0) ==> (has(a, e) <==> has(b, e))
}

pub proof fn lemma_agree_chain(
    a: Seq<(Seq<Seq<char>>, LeafView)>,
    b: Seq<(Seq<Seq<char>>, LeafView)>,
    c: Seq<(Seq<Seq<char>>, LeafView)>,
    region: spec_fn(Seq<Seq<char>>) -> bool,
)
    requires
        agree(a, b, region),
        agree(b, c, region),
    ensures
        agree(a, c, region),
{
    assert forall|e: (Seq<Seq<char>>, LeafView)| region(e.0) implies (has(a, e) <==> has(c, e)) by {
        assert(has(a, e) <==> has(b, e));
        assert(has(b, e) <==> has(c, e));
    }
}

/// Everything placed below `path` lies below it.
pub proof fn lemma_placed_under(
    path: Seq<Seq<char>>,
    children: Seq<(Seq<Seq<char>>, LeafView)>,
    e: (Seq<Seq<char>>, LeafView),
)
    requires
        has(placed(path, children), e),
    ensures
        is_under(path, e.0),
{
    lemma_placed_has(path, children, e);
    if children.len() == 0 {
        assert(e.0.subrange(0, path.len() as int) =~= path);
    } else {
        let i = choose|i: int|
            0 <= i < children.len() && e == (path + (#[trigger] children[i]).0, children[i].1);
        assert(e.0.subrange(0, path.len() as int) =~= path);
    }
}

/// Replacing the value at `path` leaves the entries elsewhere, except an
/// empty-table marker at the parent.
pub proof fn lemma_replaced_frame(
    m: Seq<(Seq<Seq<char>>, LeafView)>,
    path: Seq<Seq<char>>,
    children: Seq<(Seq<Seq<char>>, LeafView)>,
    region: spec_fn(Seq<Seq<char>>) -> bool,
)
    requires
        forall|q: Seq<Seq<char>>| #[trigger] region(q) ==> !is_under(path, q) && q != path.drop_last(),
    ensures
        agree(m, replaced(m, path, children), region),
{
    assert forall|e: (Seq<Seq<char>>, LeafView)| region(e.0) implies (has(m, e) <==> has(
        replaced(m, path, children),
        e,
    )) by {
        lemma_replaced_has(m, path, children, e);
        if has(placed(path, children), e) {
            lemma_placed_under(path, children, e);
        }
    }
}

pub proof fn lemma_removed_under_frame(
    m: Seq<(Seq<Seq<char>>, LeafView)>,
    path: Seq<Seq<char>>,
    region: spec_fn(Seq<Seq<char>>) -> bool,
)
    requires
        forall|q: Seq<Seq<char>>| #[trigger] region(q) ==> !is_under(path, q),
    ensures
        agree(m, removed_under(m, path), region),
{
    assert forall|e: (Seq<Seq<char>>, LeafView)| region(e.0) implies (has(m, e) <==> has(
        removed_under(m, path),
        e,
    )) by {
        lemma_removed_under_has(m, path, e);
    }
}

pub proof fn lemma_without_key_frame(
    m: Seq<(Seq<Seq<char>>, LeafView)>,
    table: Seq<Seq<char>>,
    key: Seq<char>,
    region: spec_fn(Seq<Seq<char>>) -> bool,
)
    requires
        forall|q: Seq<Seq<char>>| #[trigger] region(q) ==> !is_under(table.push(key), q) && q != table,
    ensures
        agree(m, without_key(m, table, key), region),
{
    assert forall|e: (Seq<Seq<char>>, LeafView)| region(e.0) implies (has(m, e) <==> has(
        without_key(m, table, key),
        e,
    )) by {
        lemma_without_key_has(m, table, key, e);
    }
}

/// Making a table present at `path` leaves the entries elsewhere.
pub proof fn lemma_ensured_table_frame(
    m: Seq<(Seq<Seq<char>>, LeafView)>,
    path: Seq<Seq<char>>,
    region: spec_fn(Seq<Seq<char>>) -> bool,
)
    requires
        ensured_table(m, path) is Some,
        forall|q: Seq<Seq<char>>| #[trigger] region(q) ==> !is_under(path, q) && q != path.drop_last(),
    ensures
        agree(m, ensured_table(m, path)->0, region),
{
    if !is_table(m, path) {
        lemma_replaced_frame(m, path, seq![], region);
    }
}

/// Every entry of the manifest lies at a path that `allowed` accepts.
pub open spec fn paths_within(
    m: Seq<(Seq<Seq<char>>, LeafView)>,
    allowed: spec_fn(Seq<Seq<char>>) -> bool,
) -> bool {
    forall|e: (Seq<Seq<char>>, LeafView)| #[trigger] has(m, e) ==> allowed(e.0)
}

pub proof fn lemma_replaced_within(
    m: Seq<(Seq<Seq<char>>, LeafView)>,
    path: Seq<Seq<char>>,
    children: Seq<(Seq<Seq<char>>, LeafView)>,
    allowed: spec_fn(Seq<Seq<char>>) -> bool,
)
    requires
        paths_within(m, allowed),
        paths_within(placed(path, children), allowed),
    ensures
        paths_within(replaced(m, path, children), allowed),
{
    assert forall|e: (Seq<Seq<char>>, LeafView)| #[trigger]
        has(replaced(m, path, children), e) implies allowed(e.0) by {
        lemma_replaced_has(m, path, children, e);
    }
}

pub proof fn lemma_removed_under_within(
    m: Seq<(Seq<Seq<char>>, LeafView)>,
    path: Seq<Seq<char>>,
    allowed: spec_fn(Seq<Seq<char>>) -> bool,
)
    requires
        paths_within(m, allowed),
    ensures
        paths_within(removed_under(m, path), allowed),
{
    assert forall|e: (Seq<Seq<char>>, LeafView)| #[trigger]
        has(removed_under(m, path), e) implies allowed(e.0) by {
        lemma_removed_under_has(m, path, e);
    }
}

pub proof fn lemma_without_key_within(
    m: Seq<(Seq<Seq<char>>, LeafView)>,
    table: Seq<Seq<char>>,
    key: Seq<char>,
    allowed: spec_fn(Seq<Seq<char>>) -> bool,
)
    requires
        paths_within(m, allowed),
        allowed(table),
    ensures
        paths_within(without_key(m, table, key), allowed),
{
    assert forall|e: (Seq<Seq<char>>, LeafView)| #[trigger]
        has(without_key(m, table, key), e) implies allowed(e.0) by {
        lemma_without_key_has(m, table, key, e);
    }
}

/// After removing everything below `path`, nothing lies below it.
pub proof fn lemma_removed_under_clears(m: Seq<(Seq<Seq<char>>, LeafView)>, path: Seq<Seq<char>>)
    ensures
        paths_within(removed_under(m, path), |q: Seq<Seq<char>>| !is_under(path, q)),
{
    assert forall|e: (Seq<Seq<char>>, LeafView)| #[trigger]
        has(removed_under(m, path), e) implies !is_under(path, e.0) by {
        lemma_removed_under_has(m, path, e);
    }
}

/// After removing a key, nothing lies below it.
pub proof fn lemma_without_key_clears(
    m: Seq<(Seq<Seq<char>>, LeafView)>,
    table: Seq<Seq<char>>,
    key: Seq<char>,
)
    ensures
        paths_within(without_key(m, table, key), |q: Seq<Seq<char>>| !is_under(table.push(key), q)),
{
    assert forall|e: (Seq<Seq<char>>, LeafView)| #[trigger]
        has(without_key(m, table, key), e) implies !is_under(table.push(key), e.0) by {
        lemma_without_key_has(m, table, key, e);
        if e.0 == table && is_under(table.push(key), e.0) {
            assert(table.len() < table.push(key).len());
        }
    }
}

/// No entry lies below `path` when none lies at an allowed path below it.
pub proof fn lemma_within_not_holds(
    m: Seq<(Seq<Seq<char>>, LeafView)>,
    path: Seq<Seq<char>>,
    allowed: spec_fn(Seq<Seq<char>>) -> bool,
)
    requires
        paths_within(m, allowed),
        forall|q: Seq<Seq<char>>| is_under(path, q) ==> !#[trigger] allowed(q),
    ensures
        !holds(m, path),
{
    lemma_holds_has(m, path);
    if holds(m, path) {
        let e = choose|e: (Seq<Seq<char>>, LeafView)| #[trigger] has(m, e) && is_under(path, e.0);
        assert(allowed(e.0));
    }
}

/// A child placed by replacing `path` lies at its place below `path`, and any
/// value there is one that a child with the same relative path gives.
pub proof fn lemma_replaced_child(
    m: Seq<(Seq<Seq<char>>, LeafView)>,
    path: Seq<Seq<char>>,
    children: Seq<(Seq<Seq<char>>, LeafView)>,
    i: int,
)
    requires
        0 <= i < children.len(),
        forall|j: int|
            0 <= j < children.len() && (#[trigger] children[j]).0 == children[i].0 ==> children[j].1
                == children[i].1,
    ensures
        has(replaced(m, path, children), (path + children[i].0, children[i].1)),
        forall|e: (Seq<Seq<char>>, LeafView)|
            #[trigger] has(replaced(m, path, children), e) && e.0 == path + children[i].0 ==> e.1
                == children[i].1,
{
    let target = (path + children[i].0, children[i].1);
    lemma_placed_has(path, children, target);
    lemma_replaced_has(m, path, children, target);
    assert forall|e: (Seq<Seq<char>>, LeafView)|
        #[trigger] has(replaced(m, path, children), e) && e.0 == path + children[i].0 implies e.1
        == children[i].1 by {
        lemma_replaced_has(m, path, children, e);
        lemma_placed_has(path, children, e);
        assert(e.0.subrange(0, path.len() as int) =~= path);
        if has(placed(path, children), e) {
            let j = choose|j: int|
                0 <= j < children.len() && e == (path + (#[trigger] children[j]).0, children[j].1);
            assert(children[j].0 =~= (path + children[j].0).subrange(
                path.len() as int,
                (path + children[j].0).len() as int,
            ));
            assert(children[i].0 =~= (path + children[i].0).subrange(
                path.len() as int,
                (path + children[i].0).len() as int,
            ));
        }
    }
}

} // verus!
