//! Text helpers for manifests and generated files.
use vstd::prelude::*;
use vstd::std_specs::iter::IteratorSpec;
use vstd::string::StringExecFns;

verus! {

broadcast use vstd::string::group_string_axioms;

/// The characters of `s`.
pub fn chars_of(s: &str) -> (r: Vec<char>)
    ensures
        r@ == s@,
{
    let mut r: Vec<char> = Vec::new();
    let mut chars = s.chars();
    loop
        invariant
            r@ + chars.remaining() == s@,
            chars.obeys_prophetic_iter_laws(),
            chars.decrease() is Some,
        ensures
            r@ == s@,
        decreases chars.decrease()->0,
    {
        match chars.next() {
            Some(c) => {
                r.push(c);
            },
            None => {
                assert(r@ =~= r@ + chars.remaining());
                break;
            },
        }
    }
    r
}


/// `needle` occurs somewhere in `s`.
pub open spec fn contains_chars(s: Seq<char>, needle: Seq<char>) -> bool {
    exists|i: int|
        0 <= i && i + needle.len() <= s.len() && #[trigger] s.subrange(i, i + needle.len())
            == needle
}

/// The text `a` equals the text `b`.
pub fn str_eq(a: &str, b: &str) -> (r: bool)
    ensures
        r == (a@ == b@),
{
    let x = chars_of(a);
    let y = chars_of(b);
    if x.len() != y.len() {
        return false;
    }
    let mut i: usize = 0;
    while i < x.len()
        invariant
            x@ == a@,
            y@ == b@,
            x@.len() == y@.len(),
            i <= x@.len(),
            forall|j: int| 0 <= j < i ==> x@[j] == y@[j],
        decreases x@.len() - i,
    {
        if x[i] != y[i] {
            return false;
        }
        i += 1;
    }
    assert(x@ =~= y@);
    true
}

fn chars_eq_at(s: &Vec<char>, start: usize, n: &Vec<char>) -> (r: bool)
    requires
        start + n@.len() <= s@.len(),
    ensures
        r == (s@.subrange(start as int, start + n@.len()) == n@),
{
    let s_len = s.len();
    let mut i: usize = 0;
    while i < n.len()
        invariant
            s_len == s@.len(),
            start + n@.len() <= s@.len(),
            i <= n@.len(),
            forall|j: int| 0 <= j < i ==> s@[start + j] == n@[j],
        decreases n@.len() - i,
    {
        if s[start + i] != n[i] {
            assert(s@.subrange(start as int, start + n@.len())[i as int] != n@[i as int]);
            return false;
        }
        i += 1;
    }
    assert(s@.subrange(start as int, start + n@.len()) =~= n@);
    true
}

/// `needle` occurs in `s`.
pub fn contains_str(s: &str, needle: &str) -> (r: bool)
    ensures
        r == contains_chars(s@, needle@),
{
    let hay = chars_of(s);
    let n = chars_of(needle);
    if n.len() > hay.len() {
        assert forall|i: int|
            0 <= i && i + n@.len() <= hay@.len() implies #[trigger] hay@.subrange(
            i,
            i + n@.len(),
        ) != n@ by {}
        return false;
    }
    let last = hay.len() - n.len();
    let mut i: usize = 0;
    loop
        invariant
            hay@ == s@,
            n@ == needle@,
            last == hay@.len() - n@.len(),
            i <= last,
            forall|j: int| 0 <= j < i ==> #[trigger] hay@.subrange(j, j + n@.len()) != n@,
        decreases last - i,
    {
        if chars_eq_at(&hay, i, &n) {
            return true;
        }
        if i == last {
            return false;
        }
        i += 1;
    }
}

/// `s` begins with `prefix`.
pub fn starts_with_str(s: &str, prefix: &str) -> (r: bool)
    ensures
        r == (prefix@.len() <= s@.len() && s@.subrange(0, prefix@.len() as int) == prefix@),
{
    let hay = chars_of(s);
    let p = chars_of(prefix);
    if p.len() > hay.len() {
        return false;
    }
    chars_eq_at(&hay, 0, &p)
}

/// `String::push` appends one character.
pub assume_specification[std::string::String::push](s: &mut String, ch: char)
    ensures
        final(s)@ == old(s)@.push(ch),
;

/// A new string holding `s`.
pub fn owned(s: &str) -> (r: String)
    ensures
        r@ == s@,
{
    s.to_owned()
}

/// `a` followed by `b`.
pub fn join_str(a: &str, b: &str) -> (r: String)
    ensures
        r@ == a@ + b@,
{
    a.to_owned().concat(b)
}

/// The last character of `s`, if any.
pub fn last_char(s: &str) -> (r: Option<char>)
    ensures
        r == (if s@.len() > 0 {
            Some(s@.last())
        } else {
            None::<char>
        }),
{
    let chars = chars_of(s);
    if chars.len() == 0 {
        None
    } else {
        Some(chars[chars.len() - 1])
    }
}

/// A path that splits the same way on every host: no backslash, no `:`, and no
/// leading `//`, so `/` is its only separator and it has no prefix.
pub open spec fn portable(p: Seq<char>) -> bool {
    &&& forall|i: int| 0 <= i < p.len() ==> p[i] != '\\' && p[i] != ':'
    &&& !(p.len() >= 2 && p[0] == '/' && p[1] == '/')
}

/// A final component that is a name: not empty, no separator, not `.` or `..`.
pub open spec fn plain_name(n: Seq<char>) -> bool {
    &&& n.len() > 0
    &&& forall|i: int| 0 <= i < n.len() ==> n[i] != '/'
    &&& n != seq!['.']
    &&& n != seq!['.', '.']
}

/// `p` is `d`, a separator and a plain name, where `d` is not empty and ends
/// neither in a separator nor in `/.`: `std::path::Path::parent` gives `d`.
pub open spec fn plain_child_of(p: Seq<char>, d: Seq<char>) -> bool {
    &&& d.len() > 0
    &&& d.last() != '/'
    &&& !(d.len() >= 2 && d[d.len() - 2] == '/' && d.last() == '.')
    &&& p.len() > d.len() + 1
    &&& p.subrange(0, d.len() as int) == d
    &&& p[d.len() as int] == '/'
    &&& plain_name(p.subrange(d.len() as int + 1, p.len() as int))
}

/// The path `base` with the relative name `name` below it, as `Path::join`
/// builds it on Unix: a separator goes between them unless `base` is empty or
/// already ends in one. (On Windows `Path::join` puts a backslash there
/// instead; Windows reads both.)
pub open spec fn joined_name(base: Seq<char>, name: Seq<char>) -> Seq<char> {
    if base.len() > 0 && base.last() != '/' {
        base + "/"@ + name
    } else {
        base + name
    }
}

pub fn join_name(base: &str, name: &str) -> (r: String)
    ensures
        r@ == joined_name(base@, name@),
{
    let needs_separator = match last_char(base) {
        Some(c) => c != '/',
        None => false,
    };
    if needs_separator {
        let with_separator = join_str(base, "/");
        with_separator.concat(name)
    } else {
        join_str(base, name)
    }
}

} // verus!
