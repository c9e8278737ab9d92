//! Byte-string helpers shared by the linker-argument and path logic.
//!
//! Linker arguments and paths are operating-system strings; the library keeps
//! them as raw bytes and compares them with the ASCII literals it looks for.
use vstd::prelude::*;

verus! {

/// `s` begins with `prefix`.
pub open spec fn has_prefix(s: Seq<u8>, prefix: Seq<u8>) -> bool {
    prefix.len() <= s.len() && s.subrange(0, prefix.len() as int) == prefix
}

/// `s` ends with `suffix`.
pub open spec fn has_suffix(s: Seq<u8>, suffix: Seq<u8>) -> bool {
    suffix.len() <= s.len() && s.subrange(s.len() - suffix.len(), s.len() as int) == suffix
}

/// `needle` occurs somewhere in `s`.
pub open spec fn contains_seq(s: Seq<u8>, needle: Seq<u8>) -> bool {
    exists|i: int|
        0 <= i && i + needle.len() <= s.len() && #[trigger] s.subrange(i, i + needle.len())
            == needle
}

/// ASCII upper case of one byte; other bytes are unchanged.
pub open spec fn upper_byte(b: u8) -> u8 {
    if 97 <= b && b <= 122 {
        (b - 32) as u8
    } else {
        b
    }
}

/// ASCII lower case of one byte; other bytes are unchanged.
pub open spec fn lower_byte(b: u8) -> u8 {
    if 65 <= b && b <= 90 {
        (b + 32) as u8
    } else {
        b
    }
}

pub open spec fn upper(s: Seq<u8>) -> Seq<u8> {
    s.map_values(|b: u8| upper_byte(b))
}

pub open spec fn lower(s: Seq<u8>) -> Seq<u8> {
    s.map_values(|b: u8| lower_byte(b))
}

/// The views of a sequence of byte vectors.
pub open spec fn views(v: Seq<Vec<u8>>) -> Seq<Seq<u8>> {
    v.map_values(|x: Vec<u8>| x@)
}

pub fn eq_bytes(a: &[u8], b: &[u8]) -> (r: bool)
    ensures
        r == (a@ == b@),
{
    if a.len() != b.len() {
        return false;
    }
    let mut i: usize = 0;
    while i < a.len()
        invariant
            a@.len() == b@.len(),
            i <= a@.len(),
            forall|j: int| 0 <= j < i ==> a@[j] == b@[j],
        decreases a@.len() - i,
    {
        if a[i] != b[i] {
            return false;
        }
        i += 1;
    }
    assert(a@ =~= b@);
    true
}

/// Compares `s[start..start + n.len()]` with `n`.
fn eq_at(s: &[u8], start: usize, n: &[u8]) -> (r: bool)
    requires
        start + n@.len() <= s@.len(),
    ensures
        r == (s@.subrange(start as int, start + n@.len()) == n@),
{
    let s_len = s.len();
    let mut i: usize = 0;
    while i < n.len()
        invariant
            s_len == s@.len(),
            start + n@.len() <= s@.len(),
            i <= n@.len(),
            forall|j: int| 0 <= j < i ==> s@[start + j] == n@[j],
        decreases n@.len() - i,
    {
        assert(start + i < s@.len());
        if s[start + i] != n[i] {
            assert(s@.subrange(start as int, start + n@.len())[i as int] != n@[i as int]);
            return false;
        }
        i += 1;
    }
    assert(s@.subrange(start as int, start + n@.len()) =~= n@);
    true
}

pub fn starts_with(s: &[u8], prefix: &[u8]) -> (r: bool)
    ensures
        r == has_prefix(s@, prefix@),
{
    if prefix.len() > s.len() {
        return false;
    }
    eq_at(s, 0, prefix)
}

pub fn ends_with(s: &[u8], suffix: &[u8]) -> (r: bool)
    ensures
        r == has_suffix(s@, suffix@),
{
    if suffix.len() > s.len() {
        return false;
    }
    eq_at(s, s.len() - suffix.len(), suffix)
}

pub fn contains(s: &[u8], needle: &[u8]) -> (r: bool)
    ensures
        r == contains_seq(s@, needle@),
{
    if needle.len() > s.len() {
        assert forall|i: int|
            0 <= i && i + needle@.len() <= s@.len() implies #[trigger] s@.subrange(
            i,
            i + needle@.len(),
        ) != needle@ by {}
        return false;
    }
    let last = s.len() - needle.len();
    let mut i: usize = 0;
    loop
        invariant
            last == s@.len() - needle@.len(),
            i <= last,
            forall|j: int| 0 <= j < i ==> #[trigger] s@.subrange(j, j + needle@.len()) != needle@,
        decreases last - i,
    {
        if eq_at(s, i, needle) {
            return true;
        }
        if i == last {
            return false;
        }
        i += 1;
    }
}

/// A copy of `s[start..end]`.
pub fn copy_range(s: &[u8], start: usize, end: usize) -> (r: Vec<u8>)
    requires
        start <= end <= s@.len(),
    ensures
        r@ == s@.subrange(start as int, end as int),
{
    let mut r: Vec<u8> = Vec::new();
    let mut i = start;
    while i < end
        invariant
            start <= i <= end <= s@.len(),
            r@ == s@.subrange(start as int, i as int),
        decreases end - i,
    {
        r.push(s[i]);
        i += 1;
        assert(r@ =~= s@.subrange(start as int, i as int));
    }
    r
}

/// `s` with the leading `prefix` removed, when `s` begins with it.
pub fn strip_prefix(s: &[u8], prefix: &[u8]) -> (r: Option<Vec<u8>>)
    ensures
        r is Some <==> has_prefix(s@, prefix@),
        r matches Some(rest) ==> rest@ == s@.subrange(prefix@.len() as int, s@.len() as int),
{
    if starts_with(s, prefix) {
        Some(copy_range(s, prefix.len(), s.len()))
    } else {
        None
    }
}

/// `a` followed by `b`.
pub fn concat(a: &[u8], b: &[u8]) -> (r: Vec<u8>)
    ensures
        r@ == a@ + b@,
{
    let mut r = copy_range(a, 0, a.len());
    let mut i: usize = 0;
    while i < b.len()
        invariant
            i <= b@.len(),
            r@ == a@ + b@.subrange(0, i as int),
        decreases b@.len() - i,
    {
        r.push(b[i]);
        i += 1;
        assert(r@ =~= a@ + b@.subrange(0, i as int));
    }
    assert(b@.subrange(0, b@.len() as int) =~= b@);
    assert(a@.subrange(0, a@.len() as int) =~= a@);
    r
}

pub fn to_ascii_uppercase(s: &[u8]) -> (r: Vec<u8>)
    ensures
        r@ == upper(s@),
{
    let mut r: Vec<u8> = Vec::new();
    let mut i: usize = 0;
    while i < s.len()
        invariant
            i <= s@.len(),
            r@ == upper(s@.subrange(0, i as int)),
        decreases s@.len() - i,
    {
        let b = s[i];
        let u = if 97 <= b && b <= 122 {
            b - 32
        } else {
            b
        };
        r.push(u);
        i += 1;
        assert(r@ =~= upper(s@.subrange(0, i as int)));
    }
    assert(s@.subrange(0, s@.len() as int) =~= s@);
    r
}

pub fn to_ascii_lowercase(s: &[u8]) -> (r: Vec<u8>)
    ensures
        r@ == lower(s@),
{
    let mut r: Vec<u8> = Vec::new();
    let mut i: usize = 0;
    while i < s.len()
        invariant
            i <= s@.len(),
            r@ == lower(s@.subrange(0, i as int)),
        decreases s@.len() - i,
    {
        let b = s[i];
        let l = if 65 <= b && b <= 90 {
            b + 32
        } else {
            b
        };
        r.push(l);
        i += 1;
        assert(r@ =~= lower(s@.subrange(0, i as int)));
    }
    assert(s@.subrange(0, s@.len() as int) =~= s@);
    r
}

/// Copies a list of byte strings.
pub fn clone_all(v: &[Vec<u8>]) -> (r: Vec<Vec<u8>>)
    ensures
        views(r@) == views(v@),
{
    let mut r: Vec<Vec<u8>> = Vec::new();
    let mut i: usize = 0;
    while i < v.len()
        invariant
            i <= v@.len(),
            r@.len() == i,
            forall|j: int| 0 <= j < i ==> #[trigger] r@[j]@ == v@[j]@,
        decreases v@.len() - i,
    {
        let item = copy_range(v[i].as_slice(), 0, v[i].len());
        assert(item@ =~= v@[i as int]@);
        r.push(item);
        i += 1;
    }
    assert(views(r@) =~= views(v@));
    r
}

} // verus!
