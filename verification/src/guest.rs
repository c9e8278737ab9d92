//! The manifest edits that turn a copy of Tokio into the guest Tokio, and the
//! dependencies on Telekio's own crates that they insert.
use vstd::prelude::*;

use crate::manifest::{
    ArrayItem, Entry, ItemView, Leaf, LeafView, Manifest, ensured_table, entry_views, is_table,
    replaced,
};
use crate::package::{PatchError, entry, path1, path2, path3, path4, value_here};
use crate::text::{join_name, join_str, joined_name, owned};

pub mod package;

verus! {

/// A dependency on a Telekio crate at a local path, with the guest feature when asked.
pub open spec fn path_children(path: Seq<char>, guest: bool, version: Seq<char>) -> Seq<
    (Seq<Seq<char>>, LeafView),
> {
    let base = seq![
        (seq!["path"@], LeafView::Str(path)),
        (seq!["version"@], LeafView::Str("="@ + version)),
    ];
    if guest {
        base.push((seq!["features"@], LeafView::Array(seq![ItemView::Str("guest"@)])))
    } else {
        base
    }
}

/// A dependency on a Telekio crate from the registry, with the guest feature when asked.
pub open spec fn version_children(guest: bool, version: Seq<char>) -> Seq<
    (Seq<Seq<char>>, LeafView),
> {
    let base = seq![(seq!["version"@], LeafView::Str("="@ + version))];
    if guest {
        base.push((seq!["features"@], LeafView::Array(seq![ItemView::Str("guest"@)])))
    } else {
        base
    }
}

/// The guest feature, as an array of one string.
fn guest_feature() -> (r: Leaf)
    ensures
        r@ == LeafView::Array(seq![ItemView::Str("guest"@)]),
{
    let items = vec![ArrayItem::Str(owned("guest"))];
    assert(crate::manifest::item_views(items@) =~= seq![ItemView::Str("guest"@)]);
    Leaf::Array(items)
}

/// A dependency on this release of a Telekio crate at `path`.
pub fn dependency(path: &str, guest: bool, version: &str) -> (r: Vec<Entry>)
    ensures
        entry_views(r@) == path_children(path@, guest, version@),
{
    let mut r: Vec<Entry> = Vec::new();
    r.push(entry(path1("path"), Leaf::Str(owned(path))));
    r.push(entry(path1("version"), Leaf::Str(join_str("=", version))));
    if guest {
        r.push(entry(path1("features"), guest_feature()));
    }
    assert(entry_views(r@) =~= path_children(path@, guest, version@));
    r
}

/// A dependency on this release of a Telekio crate from the registry.
pub fn registry_dependency(guest: bool, version: &str) -> (r: Vec<Entry>)
    ensures
        entry_views(r@) == version_children(guest, version@),
{
    let mut r: Vec<Entry> = Vec::new();
    r.push(entry(path1("version"), Leaf::Str(join_str("=", version))));
    if guest {
        r.push(entry(path1("features"), guest_feature()));
    }
    assert(entry_views(r@) =~= version_children(guest, version@));
    r
}

/// The two places where a sibling checkout of crate `name` may lie beside the
/// build crate: under its name, and under its name and version.
pub fn sibling_candidates(parent: &str, name: &str, version: &str) -> (r: (String, String))
    ensures
        r.0@ == joined_name(parent@, name@),
        r.1@ == joined_name(parent@, name@ + "-"@ + version@),
{
    let named = join_name(parent, name);
    let with_dash = join_str(name, "-");
    let versioned = join_str(with_dash.as_str(), version);
    (named, join_name(parent, versioned.as_str()))
}

/// A dependency on a Telekio crate: the sibling checkout that was found, else the registry.
pub fn package_dependency(sibling: Option<&str>, guest: bool, version: &str) -> (r: Vec<Entry>)
    ensures
        entry_views(r@) == (match sibling {
            Some(path) => path_children(path@, guest, version@),
            None => version_children(guest, version@),
        }),
{
    match sibling {
        Some(path) => dependency(path, guest, version),
        None => registry_dependency(guest, version),
    }
}

/// The guest manifest: the `telekio` dependency given, and an empty
/// `telekio-test` feature.
pub open spec fn guest_manifest(
    m: Seq<(Seq<Seq<char>>, LeafView)>,
    telekio: Seq<(Seq<Seq<char>>, LeafView)>,
) -> Result<Seq<(Seq<Seq<char>>, LeafView)>, PatchError> {
    if !is_table(m, seq!["dependencies"@]) {
        Err(PatchError::NoDependencies)
    } else {
        let m1 = replaced(m, seq!["dependencies"@, "telekio"@], telekio);
        if !is_table(m1, seq!["features"@]) {
            Err(PatchError::NoFeatures)
        } else {
            Ok(
                replaced(
                    m1,
                    seq!["features"@, "telekio-test"@],
                    seq![(seq![], LeafView::Array(seq![]))],
                ),
            )
        }
    }
}

/// Adds the `telekio` dependency and the `telekio-test` feature to Tokio's manifest.
pub fn patch_manifest(manifest: &mut Manifest, telekio: Vec<Entry>) -> (r: Result<(), PatchError>)
    ensures
        match guest_manifest(old(manifest)@, entry_views(telekio@)) {
            Ok(m) => r is Ok && final(manifest)@ == m,
            Err(e) => r == Err::<(), PatchError>(e),
        },
{
    if !manifest.is_table(path1("dependencies").as_slice()) {
        return Err(PatchError::NoDependencies);
    }
    manifest.replace(path2("dependencies", "telekio").as_slice(), telekio);
    if !manifest.is_table(path1("features").as_slice()) {
        return Err(PatchError::NoFeatures);
    }
    let empty: Vec<ArrayItem> = Vec::new();
    assert(crate::manifest::item_views(empty@) =~= Seq::<ItemView>::empty());
    manifest.replace(path2("features", "telekio-test").as_slice(), value_here(Leaf::Array(empty)));
    Ok(())
}

/// The manifest of Tokio's own test suite run against the guest: a
/// `telekio-test` feature that brings in the host runtime, an optional host
/// runtime dependency, and crates.io's Tokio patched to this copy.
pub open spec fn test_manifest(
    m: Seq<(Seq<Seq<char>>, LeafView)>,
    host: Seq<(Seq<Seq<char>>, LeafView)>,
) -> Result<Seq<(Seq<Seq<char>>, LeafView)>, PatchError> {
    if !is_table(m, seq!["features"@]) {
        Err(PatchError::NoFeatures)
    } else {
        let m1 = replaced(
            m,
            seq!["features"@, "telekio-test"@],
            seq![(seq![], LeafView::Array(seq![ItemView::Str("dep:telekio-host"@)]))],
        );
        if !is_table(m1, seq!["dependencies"@]) {
            Err(PatchError::NoDependencies)
        } else {
            let m2 = replaced(
                m1,
                seq!["dependencies"@, "telekio-host"@],
                host.push((seq!["optional"@], LeafView::Bool(true))),
            );
            match ensured_table(m2, seq!["patch"@]) {
                None => Err(PatchError::PatchesNotTable),
                Some(m3) => match ensured_table(m3, seq!["patch"@, "crates-io"@]) {
                    None => Err(PatchError::CratesIoPatchesNotTable),
                    Some(m4) => Ok(
                        replaced(
                            m4,
                            seq!["patch"@, "crates-io"@, "tokio"@],
                            seq![(seq!["path"@], LeafView::Str("."@))],
                        ),
                    ),
                },
            }
        }
    }
}

/// Edits the guest manifest for Tokio's test suite; `host` is the dependency
/// on the host runtime.
pub fn prepare_tests_manifest(manifest: &mut Manifest, host: Vec<Entry>) -> (r: Result<
    (),
    PatchError,
>)
    ensures
        match test_manifest(old(manifest)@, entry_views(host@)) {
            Ok(m) => r is Ok && final(manifest)@ == m,
            Err(e) => r == Err::<(), PatchError>(e),
        },
{
    if !manifest.is_table(path1("features").as_slice()) {
        return Err(PatchError::NoFeatures);
    }
    let items = vec![ArrayItem::Str(owned("dep:telekio-host"))];
    assert(crate::manifest::item_views(items@) =~= seq![ItemView::Str("dep:telekio-host"@)]);
    manifest.replace(path2("features", "telekio-test").as_slice(), value_here(Leaf::Array(items)));
    if !manifest.is_table(path1("dependencies").as_slice()) {
        return Err(PatchError::NoDependencies);
    }
    let mut host = host;
    let ghost before = entry_views(host@);
    let optional = entry(path1("optional"), Leaf::Bool(true));
    host.push(optional);
    assert(entry_views(host@) =~= before.push(optional@));
    manifest.replace(path2("dependencies", "telekio-host").as_slice(), host);
    if !manifest.ensure_table(path1("patch").as_slice()) {
        return Err(PatchError::PatchesNotTable);
    }
    if !manifest.ensure_table(path2("patch", "crates-io").as_slice()) {
        return Err(PatchError::CratesIoPatchesNotTable);
    }
    let tokio = vec![entry(path1("path"), Leaf::Str(owned(".")))];
    assert(entry_views(tokio@) =~= seq![(seq!["path"@], LeafView::Str("."@))]);
    manifest.replace(path3("patch", "crates-io", "tokio").as_slice(), tokio);
    Ok(())
}

} // verus!
