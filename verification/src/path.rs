//! Paths as `/`-separated byte strings, split into components the way
//! `std::path` splits a Unix path: a leading `/` is the root, a leading `.`
//! is the current directory, empty and inner `.` segments are dropped and
//! `..` is the parent directory.
//!
//! Only Unix syntax is modelled: a backslash is an ordinary byte here and a
//! drive or UNC prefix is not recognised, so on a Windows host `std::path` can
//! split such a path differently (`C:\Temp\rustcAbC\symbols.o` is one file
//! name here, while Windows finds the directory `rustcAbC` in it).
use vstd::prelude::*;

use crate::bytes::{copy_range, eq_bytes, views};

verus! {

pub enum PathComponent {
    RootDir,
    CurDir,
    ParentDir,
    Normal(Seq<u8>),
}

pub enum Component {
    RootDir,
    CurDir,
    ParentDir,
    Normal(Vec<u8>),
}

impl View for Component {
    type V = PathComponent;

    open spec fn view(&self) -> PathComponent {
        match self {
            Component::RootDir => PathComponent::RootDir,
            Component::CurDir => PathComponent::CurDir,
            Component::ParentDir => PathComponent::ParentDir,
            Component::Normal(name) => PathComponent::Normal(name@),
        }
    }
}

pub open spec fn component_views(v: Seq<Component>) -> Seq<PathComponent> {
    v.map_values(|c: Component| c@)
}

pub open spec fn separator() -> u8 {
    47
}

pub open spec fn dot() -> Seq<u8> {
    seq![46u8]
}

pub open spec fn dot_dot() -> Seq<u8> {
    seq![46u8, 46u8]
}

/// The component that a non-empty segment other than `.` stands for.
pub open spec fn classify(segment: Seq<u8>) -> PathComponent {
    if segment == dot_dot() {
        PathComponent::ParentDir
    } else {
        PathComponent::Normal(segment)
    }
}

/// Appends the component of a finished segment; empty and `.` segments add nothing.
pub open spec fn push_segment(done: Seq<PathComponent>, segment: Seq<u8>) -> Seq<PathComponent> {
    if segment.len() == 0 || segment == dot() {
        done
    } else {
        done.push(classify(segment))
    }
}

/// Scans `p` from the left: the components of the finished segments and the
/// segment still open at the end.
pub open spec fn scan(p: Seq<u8>) -> (Seq<PathComponent>, Seq<u8>)
    decreases p.len(),
{
    if p.len() == 0 {
        (seq![], seq![])
    } else {
        let (done, segment) = scan(p.drop_last());
        if p.last() == separator() {
            (push_segment(done, segment), seq![])
        } else {
            (done, segment.push(p.last()))
        }
    }
}

pub open spec fn has_root(p: Seq<u8>) -> bool {
    p.len() > 0 && p[0] == separator()
}

/// The path starts with a `.` segment, which stays as the current directory.
pub open spec fn starts_with_cur_dir(p: Seq<u8>) -> bool {
    !has_root(p) && p.len() > 0 && p[0] == 46 && (p.len() == 1 || p[1] == separator())
}

pub open spec fn body_components(p: Seq<u8>) -> Seq<PathComponent> {
    push_segment(scan(p).0, scan(p).1)
}

pub open spec fn components(p: Seq<u8>) -> Seq<PathComponent> {
    if has_root(p) {
        seq![PathComponent::RootDir] + body_components(p)
    } else if starts_with_cur_dir(p) {
        seq![PathComponent::CurDir] + body_components(p)
    } else {
        body_components(p)
    }
}

/// The components of the parent, when the path has one: every component but the
/// last, unless the only component is the root (or there is none).
pub open spec fn parent(p: Seq<u8>) -> Option<Seq<PathComponent>> {
    let c = components(p);
    if c.len() == 0 || c.last() == PathComponent::RootDir {
        None
    } else {
        Some(c.drop_last())
    }
}

/// The final component, when it is a normal name.
pub open spec fn last_name(c: Seq<PathComponent>) -> Option<Seq<u8>> {
    if c.len() > 0 && c.last() is Normal {
        Some(c.last()->Normal_0)
    } else {
        None
    }
}

pub open spec fn file_name(p: Seq<u8>) -> Option<Seq<u8>> {
    last_name(components(p))
}

/// The file name of the parent directory.
pub open spec fn parent_name(p: Seq<u8>) -> Option<Seq<u8>> {
    match parent(p) {
        Some(c) => last_name(c),
        None => None,
    }
}

/// The parent exists and is not the empty path.
pub open spec fn has_located_parent(p: Seq<u8>) -> bool {
    match parent(p) {
        Some(c) => c.len() > 0,
        None => false,
    }
}

/// Some ancestor of the path (the path itself included) has file name `name`.
pub open spec fn ancestor_named(p: Seq<u8>, name: Seq<u8>) -> bool {
    exists|i: int| 0 <= i < components(p).len() && components(p)[i] == PathComponent::Normal(name)
}

/// The index of the last `.` in `name`.
pub open spec fn last_dot(name: Seq<u8>) -> Option<int>
    decreases name.len(),
{
    if name.len() == 0 {
        None
    } else if name.last() == 46 {
        Some(name.len() - 1)
    } else {
        last_dot(name.drop_last())
    }
}

/// The extension of a file name: what follows its last `.`, when that dot is
/// not the first byte and the name is not `..`.
pub open spec fn name_extension(name: Seq<u8>) -> Option<Seq<u8>> {
    if name == dot_dot() {
        None
    } else {
        match last_dot(name) {
            Some(i) => if i == 0 {
                None
            } else {
                Some(name.subrange(i + 1, name.len() as int))
            },
            None => None,
        }
    }
}

/// The stem of a file name: the name without its extension.
pub open spec fn name_stem(name: Seq<u8>) -> Seq<u8> {
    if name == dot_dot() {
        name
    } else {
        match last_dot(name) {
            Some(i) => if i == 0 {
                name
            } else {
                name.subrange(0, i)
            },
            None => name,
        }
    }
}

pub open spec fn extension(p: Seq<u8>) -> Option<Seq<u8>> {
    match file_name(p) {
        Some(name) => name_extension(name),
        None => None,
    }
}

pub open spec fn file_stem(p: Seq<u8>) -> Option<Seq<u8>> {
    match file_name(p) {
        Some(name) => Some(name_stem(name)),
        None => None,
    }
}

/// `base` joined with `path`: an absolute `path` replaces `base`; otherwise a
/// separator is put between them unless `base` is empty or already ends with one.
pub open spec fn join(base: Seq<u8>, path: Seq<u8>) -> Seq<u8> {
    if has_root(path) {
        path
    } else if base.len() > 0 && base.last() != separator() {
        base.push(separator()) + path
    } else {
        base + path
    }
}

fn push_segment_exec(done: &mut Vec<Component>, segment: Vec<u8>)
    ensures
        component_views(final(done)@) == push_segment(component_views(old(done)@), segment@),
{
    let ghost before = component_views(done@);
    let one_dot: &[u8] = &[46u8];
    let two_dots: &[u8] = &[46u8, 46u8];
    assert(one_dot@ == dot());
    assert(two_dots@ == dot_dot());
    let is_dot = eq_bytes(segment.as_slice(), one_dot);
    let is_dot_dot = eq_bytes(segment.as_slice(), two_dots);
    if segment.len() == 0 || is_dot {
        return;
    }
    if is_dot_dot {
        done.push(Component::ParentDir);
    } else {
        done.push(Component::Normal(segment));
    }
    assert(component_views(done@) =~= before.push(classify(segment@)));
}

pub fn components_of(p: &[u8]) -> (r: Vec<Component>)
    ensures
        component_views(r@) == components(p@),
{
    let mut done: Vec<Component> = Vec::new();
    let root = p.len() > 0 && p[0] == 47;
    if root {
        done.push(Component::RootDir);
    } else if p.len() > 0 && p[0] == 46 && (p.len() == 1 || p[1] == 47) {
        done.push(Component::CurDir);
    }
    let ghost prefix = component_views(done@);
    let mut segment: Vec<u8> = Vec::new();
    let mut i: usize = 0;
    assert(p@.subrange(0, 0) =~= Seq::<u8>::empty());
    assert(component_views(done@) =~= prefix + scan(p@.subrange(0, 0)).0);
    while i < p.len()
        invariant
            i <= p@.len(),
            component_views(done@) == prefix + scan(p@.subrange(0, i as int)).0,
            segment@ == scan(p@.subrange(0, i as int)).1,
        decreases p@.len() - i,
    {
        let ghost head = p@.subrange(0, i as int);
        assert(p@.subrange(0, i + 1).drop_last() =~= head);
        let b = p[i];
        if b == 47 {
            let finished = segment;
            segment = Vec::new();
            let ghost before = component_views(done@);
            push_segment_exec(&mut done, finished);
            assert(component_views(done@) =~= prefix + push_segment(scan(head).0, scan(head).1));
        } else {
            segment.push(b);
        }
        i += 1;
    }
    assert(p@.subrange(0, p@.len() as int) =~= p@);
    let ghost scanned = scan(p@);
    push_segment_exec(&mut done, segment);
    assert(component_views(done@) =~= prefix + push_segment(scanned.0, scanned.1));
    assert(prefix + body_components(p@) == components(p@)) by {
        if has_root(p@) {
            assert(prefix =~= seq![PathComponent::RootDir]);
        } else if starts_with_cur_dir(p@) {
            assert(prefix =~= seq![PathComponent::CurDir]);
        } else {
            assert(prefix =~= Seq::<PathComponent>::empty());
        }
    }
    done
}

/// The file name of a path: its last component, when that is a normal name.
pub fn file_name_of(p: &[u8]) -> (r: Option<Vec<u8>>)
    ensures
        r matches Some(v) ==> file_name(p@) == Some(v@),
        r is None ==> file_name(p@) is None,
{
    let c = components_of(p);
    let n = c.len();
    if n == 0 {
        return None;
    }
    assert(component_views(c@).last() == c@[n - 1]@);
    match &c[n - 1] {
        Component::Normal(name) => Some(copy_range(name.as_slice(), 0, name.len())),
        _ => None,
    }
}

/// The file name of the parent directory of a path.
pub fn parent_name_of(p: &[u8]) -> (r: Option<Vec<u8>>)
    ensures
        r matches Some(v) ==> parent_name(p@) == Some(v@),
        r is None ==> parent_name(p@) is None,
{
    let c = components_of(p);
    let n = c.len();
    if n < 2 {
        return None;
    }
    let ghost cv = component_views(c@);
    assert(cv.last() == c@[n - 1]@);
    assert(cv.drop_last().last() == c@[n - 2]@);
    if let Component::RootDir = &c[n - 1] {
        return None;
    }
    match &c[n - 2] {
        Component::Normal(name) => Some(copy_range(name.as_slice(), 0, name.len())),
        _ => None,
    }
}

/// The path has a parent that is not the empty path.
pub fn has_located_parent_of(p: &[u8]) -> (r: bool)
    ensures
        r == has_located_parent(p@),
{
    let c = components_of(p);
    let n = c.len();
    if n == 0 {
        return false;
    }
    assert(component_views(c@).last() == c@[n - 1]@);
    match &c[n - 1] {
        Component::RootDir => false,
        _ => n >= 2,
    }
}

/// Some ancestor of the path, the path itself included, is named `name`.
pub fn ancestor_named_of(p: &[u8], name: &[u8]) -> (r: bool)
    ensures
        r == ancestor_named(p@, name@),
{
    let c = components_of(p);
    let ghost cv = component_views(c@);
    let mut i: usize = 0;
    while i < c.len()
        invariant
            cv == component_views(c@),
            cv == components(p@),
            i <= c@.len(),
            forall|j: int| 0 <= j < i ==> cv[j] != PathComponent::Normal(name@),
        decreases c@.len() - i,
    {
        assert(cv[i as int] == c@[i as int]@);
        if let Component::Normal(candidate) = &c[i] {
            if eq_bytes(candidate.as_slice(), name) {
                return true;
            }
        }
        i += 1;
    }
    false
}

pub fn last_dot_of(name: &[u8]) -> (r: Option<usize>)
    ensures
        r matches Some(i) ==> last_dot(name@) == Some(i as int) && i < name@.len(),
        r is None ==> last_dot(name@) is None,
{
    let mut i = name.len();
    assert(name@.subrange(0, name@.len() as int) =~= name@);
    while i > 0
        invariant
            i <= name@.len(),
            last_dot(name@) == last_dot(name@.subrange(0, i as int)),
        decreases i,
    {
        let ghost head = name@.subrange(0, i as int);
        assert(head.drop_last() =~= name@.subrange(0, i - 1));
        if name[i - 1] == 46 {
            return Some(i - 1);
        }
        i -= 1;
    }
    None
}

/// The extension of a file name.
pub fn name_extension_of(name: &[u8]) -> (r: Option<Vec<u8>>)
    ensures
        r matches Some(v) ==> name_extension(name@) == Some(v@),
        r is None ==> name_extension(name@) is None,
{
    let two_dots: &[u8] = &[46u8, 46u8];
    assert(two_dots@ == dot_dot());
    if eq_bytes(name, two_dots) {
        return None;
    }
    match last_dot_of(name) {
        Some(i) => if i == 0 {
            None
        } else {
            let n = name.len();
            Some(copy_range(name, i + 1, n))
        },
        None => None,
    }
}

/// The stem of a file name.
pub fn name_stem_of(name: &[u8]) -> (r: Vec<u8>)
    ensures
        r@ == name_stem(name@),
{
    let two_dots: &[u8] = &[46u8, 46u8];
    assert(two_dots@ == dot_dot());
    if eq_bytes(name, two_dots) {
        return copy_range(name, 0, name.len());
    }
    match last_dot_of(name) {
        Some(i) => if i == 0 {
            copy_range(name, 0, name.len())
        } else {
            copy_range(name, 0, i)
        },
        None => copy_range(name, 0, name.len()),
    }
}

/// `base` joined with `path`.
pub fn join_of(base: &[u8], path: &[u8]) -> (r: Vec<u8>)
    ensures
        r@ == join(base@, path@),
{
    if path.len() > 0 && path[0] == 47 {
        return copy_range(path, 0, path.len());
    }
    let mut r = copy_range(base, 0, base.len());
    assert(base@.subrange(0, base@.len() as int) =~= base@);
    if base.len() > 0 && base[base.len() - 1] != 47 {
        r.push(47);
    }
    let ghost start = r@;
    let mut i: usize = 0;
    while i < path.len()
        invariant
            i <= path@.len(),
            r@ == start + path@.subrange(0, i as int),
        decreases path@.len() - i,
    {
        r.push(path[i]);
        i += 1;
        assert(r@ =~= start + path@.subrange(0, i as int));
    }
    assert(path@.subrange(0, path@.len() as int) =~= path@);
    r
}

} // verus!
