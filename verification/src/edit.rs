//! The source edits that transform Tokio: what they are asked to do, and the
//! decisions they take that do not depend on the syntax tree itself.
use vstd::prelude::*;

verus! {

/// A field to add to a struct.
pub struct Field<'a> {
    pub visibility: Option<&'a str>,
    pub name: &'a str,
    pub ty: &'a str,
}

/// A field to add to a struct expression, with its value.
pub struct FieldInit<'a> {
    pub name: &'a str,
    pub value: &'a str,
}

/// An item to put an attribute on.
#[derive(Clone, Copy)]
pub enum AttrTarget<'a> {
    Struct(&'a str),
    Enum(&'a str),
    Module(&'a str),
    Method { owner: &'a str, name: &'a str },
    Impl { owner: &'a str, method: &'a str },
}

/// The function, or method of a type, that an edit is confined to.
#[derive(Clone, Copy)]
pub enum Scope<'a> {
    Function(&'a str),
    Method { owner: &'a str, name: &'a str },
}

/// Why a search for exactly one item failed.
#[derive(Clone, Copy, Debug, PartialEq, Eq, Structural)]
pub enum OneError {
    Missing,
    MoreThanOne,
}

/// The single item found, or why there is not exactly one.
pub fn one<T>(items: Vec<T>) -> (r: Result<T, OneError>)
    ensures
        match r {
            Ok(item) => items@.len() == 1 && item == items@[0],
            Err(OneError::Missing) => items@.len() == 0,
            Err(OneError::MoreThanOne) => items@.len() > 1,
        },
{
    let mut items = items;
    if items.len() == 0 {
        return Err(OneError::Missing);
    }
    if items.len() > 1 {
        return Err(OneError::MoreThanOne);
    }
    Ok(items.remove(0))
}

/// A span of source text, from its start to its end offset.
#[derive(Clone, Copy, Debug, PartialEq, Eq, Structural)]
pub struct TextRange {
    pub start: u32,
    pub end: u32,
}

/// `outer` covers `inner`.
pub open spec fn covers(outer: TextRange, inner: TextRange) -> bool {
    outer.start <= inner.start && outer.end >= inner.end
}

/// The ranges of a list of replacements.
pub open spec fn ranges_of<R>(replacements: Seq<(TextRange, R)>) -> Seq<TextRange> {
    replacements.map_values(|p: (TextRange, R)| p.0)
}

/// No replacement's range covers another's.
pub open spec fn outermost_only(ranges: Seq<TextRange>) -> bool {
    forall|i: int, j: int|
        0 <= i < ranges.len() && 0 <= j < ranges.len() && i != j ==> !covers(
            #[trigger] ranges[i],
            #[trigger] ranges[j],
        )
}

/// The replacements whose ranges `range` does not cover, in their order.
pub open spec fn uncovered<R>(replacements: Seq<(TextRange, R)>, range: TextRange) -> Seq<
    (TextRange, R),
>
    decreases replacements.len(),
{
    if replacements.len() == 0 {
        replacements
    } else {
        let rest = uncovered(replacements.drop_last(), range);
        if covers(range, replacements.last().0) {
            rest
        } else {
            rest.push(replacements.last())
        }
    }
}

proof fn lemma_uncovered_from<R>(replacements: Seq<(TextRange, R)>, range: TextRange)
    ensures
        forall|k: int|
            0 <= k < uncovered(replacements, range).len() ==> {
                &&& !covers(range, #[trigger] uncovered(replacements, range)[k].0)
                &&& exists|i: int|
                    0 <= i < replacements.len() && replacements[i] == uncovered(
                        replacements,
                        range,
                    )[k]
            },
        uncovered(replacements, range).len() <= replacements.len(),
    decreases replacements.len(),
{
    if replacements.len() > 0 {
        lemma_uncovered_from(replacements.drop_last(), range);
        let rest = uncovered(replacements.drop_last(), range);
        assert forall|k: int| 0 <= k < uncovered(replacements, range).len() implies {
            &&& !covers(range, #[trigger] uncovered(replacements, range)[k].0)
            &&& exists|i: int|
                0 <= i < replacements.len() && replacements[i] == uncovered(replacements, range)[k]
        } by {
            if k < rest.len() {
                let i = choose|i: int|
                    0 <= i < replacements.drop_last().len() && replacements.drop_last()[i]
                        == rest[k];
                assert(replacements[i] == uncovered(replacements, range)[k]);
            } else {
                assert(replacements[replacements.len() - 1] == uncovered(replacements, range)[k]);
            }
        }
    }
}

/// Keeps a replacement of `range` only when no kept replacement already covers
/// it, and then drops the kept ones that it covers: only the outermost
/// replacements stay.
pub fn retain_outermost<R>(replacements: &mut Vec<(TextRange, R)>, range: TextRange, replacement: R)
    ensures
        (exists|i: int|
            0 <= i < old(replacements)@.len() && covers(
                #[trigger] old(replacements)@[i].0,
                range,
            )) ==> final(replacements)@ == old(replacements)@,
        !(exists|i: int|
            0 <= i < old(replacements)@.len() && covers(
                #[trigger] old(replacements)@[i].0,
                range,
            )) ==> final(replacements)@ == uncovered(old(replacements)@, range).push(
            (range, replacement),
        ),
{
    let mut i: usize = 0;
    while i < replacements.len()
        invariant
            i <= replacements@.len(),
            replacements@ == old(replacements)@,
            forall|j: int| 0 <= j < i ==> !covers(#[trigger] replacements@[j].0, range),
        decreases replacements@.len() - i,
    {
        let existing = replacements[i].0;
        if existing.start <= range.start && existing.end >= range.end {
            return;
        }
        i += 1;
    }
    let ghost original = replacements@;
    let mut kept: Vec<(TextRange, R)> = Vec::new();
    let mut rest: Vec<(TextRange, R)> = Vec::new();
    std::mem::swap(&mut rest, replacements);
    let n = rest.len();
    let mut k: usize = 0;
    assert(original.skip(0) =~= original);
    assert(original.subrange(0, 0) =~= Seq::<(TextRange, R)>::empty());
    while k < n
        invariant
            n == original.len(),
            k <= n,
            rest@ == original.skip(k as int),
            kept@ == uncovered(original.subrange(0, k as int), range),
        decreases n - k,
    {
        let item = rest.remove(0);
        assert(item == original[k as int]);
        assert(rest@ =~= original.skip(k + 1));
        let ghost head = original.subrange(0, k + 1);
        assert(head.drop_last() =~= original.subrange(0, k as int));
        assert(head.last() == item);
        let covered = range.start <= item.0.start && range.end >= item.0.end;
        if !covered {
            kept.push(item);
        }
        k += 1;
    }
    assert(original.subrange(0, n as int) =~= original);
    kept.push((range, replacement));
    *replacements = kept;
}

/// Keeping only outermost replacements keeps no replacement covered by another.
pub proof fn retain_outermost_keeps_outermost<R>(
    replacements: Seq<(TextRange, R)>,
    range: TextRange,
    replacement: R,
)
    requires
        outermost_only(ranges_of(replacements)),
        !(exists|i: int| 0 <= i < replacements.len() && covers(#[trigger] replacements[i].0, range)),
    ensures
        outermost_only(ranges_of(uncovered(replacements, range).push((range, replacement)))),
{
    lemma_uncovered_from(replacements, range);
    let kept = uncovered(replacements, range);
    let all = kept.push((range, replacement));
    let ranges = ranges_of(all);
    assert forall|i: int, j: int|
        0 <= i < ranges.len() && 0 <= j < ranges.len() && i != j implies !covers(
        #[trigger] ranges[i],
        #[trigger] ranges[j],
    ) by {
        assert(ranges[i] == all[i].0);
        assert(ranges[j] == all[j].0);
        if i < kept.len() && j < kept.len() {
            let a = choose|a: int| 0 <= a < replacements.len() && replacements[a] == kept[i];
            let b = choose|b: int| 0 <= b < replacements.len() && replacements[b] == kept[j];
            assert(ranges_of(replacements)[a] == kept[i].0);
            assert(ranges_of(replacements)[b] == kept[j].0);
            if a == b {
                lemma_uncovered_distinct(replacements, range, i, j);
            }
        } else if i < kept.len() {
            assert(j == kept.len());
            let a = choose|a: int| 0 <= a < replacements.len() && replacements[a] == kept[i];
            assert(!covers(replacements[a].0, range));
        } else {
            assert(!covers(range, kept[j].0));
        }
    }
}

/// Distinct places in the kept list come from distinct places in the original.
proof fn lemma_uncovered_distinct<R>(
    replacements: Seq<(TextRange, R)>,
    range: TextRange,
    i: int,
    j: int,
)
    requires
        0 <= i < uncovered(replacements, range).len(),
        0 <= j < uncovered(replacements, range).len(),
        i != j,
        outermost_only(ranges_of(replacements)),
    ensures
        !covers(uncovered(replacements, range)[i].0, uncovered(replacements, range)[j].0),
    decreases replacements.len(),
{
    let rest = uncovered(replacements.drop_last(), range);
    lemma_uncovered_from(replacements.drop_last(), range);
    assert(outermost_only(ranges_of(replacements.drop_last()))) by {
        assert forall|a: int, b: int|
            0 <= a < ranges_of(replacements.drop_last()).len() && 0 <= b < ranges_of(
                replacements.drop_last(),
            ).len() && a != b implies !covers(
            #[trigger] ranges_of(replacements.drop_last())[a],
            #[trigger] ranges_of(replacements.drop_last())[b],
        ) by {
            assert(ranges_of(replacements)[a] == ranges_of(replacements.drop_last())[a]);
            assert(ranges_of(replacements)[b] == ranges_of(replacements.drop_last())[b]);
        }
    }
    if i < rest.len() && j < rest.len() {
        lemma_uncovered_distinct(replacements.drop_last(), range, i, j);
    } else {
        let last = replacements.len() - 1;
        let other = if i < rest.len() {
            i
        } else {
            j
        };
        let a = choose|a: int|
            0 <= a < replacements.drop_last().len() && replacements.drop_last()[a] == rest[other];
        assert(ranges_of(replacements)[a] == rest[other].0);
        assert(ranges_of(replacements)[last] == replacements.last().0);
        assert(a != last);
    }
}

/// The kind of a syntax element beside a use tree.
#[derive(Clone, Copy, Debug, PartialEq, Eq, Structural)]
pub enum ElementKind {
    Whitespace,
    Comma,
    Other,
}

/// How many whitespace elements lead up to the first comma of `siblings`;
/// none when something else comes first or there is no comma.
pub open spec fn to_comma(siblings: Seq<ElementKind>) -> Option<nat>
    decreases siblings.len(),
{
    if siblings.len() == 0 {
        None
    } else if siblings[0] == ElementKind::Comma {
        Some(0)
    } else if siblings[0] == ElementKind::Whitespace {
        match to_comma(siblings.drop_first()) {
            Some(n) => Some(n + 1),
            None => None,
        }
    } else {
        None
    }
}

/// What removing a use tree from a list takes with it.
#[derive(Clone, Copy, Debug, PartialEq, Eq, Structural)]
pub enum UseTreeRemoval {
    /// The tree alone.
    Alone,
    /// The tree and this many following elements, its comma last.
    WithFollowing(usize),
    /// The tree and this many preceding elements, its comma last.
    WithPreceding(usize),
}

fn comma_distance(siblings: &[ElementKind]) -> (r: Option<usize>)
    ensures
        match r {
            Some(n) => to_comma(siblings@) == Some(n as nat) && n < siblings@.len() && n
                < usize::MAX,
            None => to_comma(siblings@) is None,
        },
{
    let mut i: usize = 0;
    assert(siblings@.skip(0) =~= siblings@);
    while i < siblings.len()
        invariant
            i <= siblings@.len(),
            forall|j: int| 0 <= j < i ==> siblings@[j] == ElementKind::Whitespace,
            to_comma(siblings@) == match to_comma(siblings@.skip(i as int)) {
                Some(n) => Some((n + i) as nat),
                None => None::<nat>,
            },
        decreases siblings@.len() - i,
    {
        let kind = siblings[i];
        if kind == ElementKind::Comma {
            assert(siblings@.skip(i as int)[0] == ElementKind::Comma);
            return Some(i);
        }
        if kind != ElementKind::Whitespace {
            assert(siblings@.skip(i as int)[0] == kind);
            return None;
        }
        assert(siblings@.skip(i as int).drop_first() =~= siblings@.skip(i + 1));
        i += 1;
    }
    assert(siblings@.skip(i as int) =~= Seq::<ElementKind>::empty());
    None
}

/// Removing a use tree from a list removes its comma too: the one after it,
/// with the whitespace before that comma, if only whitespace lies between;
/// else the one before it in the same way.
pub fn use_tree_removal(following: &[ElementKind], preceding: &[ElementKind]) -> (r:
    UseTreeRemoval)
    ensures
        r == (match to_comma(following@) {
            Some(n) => UseTreeRemoval::WithFollowing((n + 1) as usize),
            None => match to_comma(preceding@) {
                Some(n) => UseTreeRemoval::WithPreceding((n + 1) as usize),
                None => UseTreeRemoval::Alone,
            },
        }),
{
    match comma_distance(following) {
        Some(n) => UseTreeRemoval::WithFollowing(n + 1),
        None => match comma_distance(preceding) {
            Some(n) => UseTreeRemoval::WithPreceding(n + 1),
            None => UseTreeRemoval::Alone,
        },
    }
}

} // verus!
