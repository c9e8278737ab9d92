//! The persistent Tokio patch that a project carries: whether the generated
//! patch is current, and the manifest and files that make it up.
use vstd::prelude::*;

use crate::manifest::{
    ArrayItem, Entry, ItemView, Leaf, LeafView, Manifest, array_has_str, bool_at, entry_views,
    ensured_table, is_key_below, is_table, holds, key, keep_entries, keys, placed, removed_under,
    replaced, str_at, value_at, without_key,
};
pub mod fresh;

use crate::manifest::document::{flattened, manifest_text, nested, read_manifest};
use crate::toml_value::{spec_toml_parse, spec_toml_print};
use crate::text::{plain_child_of, portable, contains_chars, contains_str, join_name, join_str, joined_name, owned, str_eq};

verus! {

#[derive(Clone, Copy, Debug, PartialEq, Eq, Structural)]
pub enum Role {
    Host,
    Guest,
}

impl Role {
    pub open spec fn spec_name(self) -> Seq<char> {
        match self {
            Role::Host => "host"@,
            Role::Guest => "guest"@,
        }
    }

    pub fn name(self) -> (r: &'static str)
        ensures
            r@ == self.spec_name(),
    {
        match self {
            Role::Host => "host",
            Role::Guest => "guest",
        }
    }
}

/// Why a manifest could not be patched.
#[derive(Clone, Copy, Debug, PartialEq, Eq, Structural)]
pub enum PatchError {
    NoDependencies,
    NoPackage,
    NoFeatures,
    FeatureNotArray,
    TargetsNotTable,
    NativeTargetNotTable,
    NativeDependenciesNotTable,
    NoParent,
    PatchesNotTable,
    CratesIoPatchesNotTable,
    /// The manifest's text is not TOML.
    ManifestUnreadable,
    /// The manifest's values cannot be written as TOML.
    ManifestUnwritable,
}

pub(crate) fn path1(a: &str) -> (r: Vec<String>)
    ensures
        keys(r@) == seq![a@],
{
    let r = vec![key(a)];
    assert(keys(r@) =~= seq![a@]);
    r
}

pub(crate) fn path2(a: &str, b: &str) -> (r: Vec<String>)
    ensures
        keys(r@) == seq![a@, b@],
{
    let r = vec![key(a), key(b)];
    assert(keys(r@) =~= seq![a@, b@]);
    r
}

pub(crate) fn path3(a: &str, b: &str, c: &str) -> (r: Vec<String>)
    ensures
        keys(r@) == seq![a@, b@, c@],
{
    let r = vec![key(a), key(b), key(c)];
    assert(keys(r@) =~= seq![a@, b@, c@]);
    r
}

pub(crate) fn path4(a: &str, b: &str, c: &str, d: &str) -> (r: Vec<String>)
    ensures
        keys(r@) == seq![a@, b@, c@, d@],
{
    let r = vec![key(a), key(b), key(c), key(d)];
    assert(keys(r@) =~= seq![a@, b@, c@, d@]);
    r
}

/// The target whose dependencies hold the native host runtime.
pub open spec fn native_target() -> Seq<char> {
    "cfg(all(any(unix, windows), not(loom)))"@
}

pub open spec fn host_path() -> Seq<Seq<char>> {
    seq!["target"@, native_target(), "dependencies"@, "telekio-host"@]
}

/// The native target's dependencies hold the host runtime.
pub open spec fn has_host_dependency(m: Seq<(Seq<Seq<char>>, LeafView)>) -> bool {
    is_table(m, seq!["target"@]) && is_table(m, seq!["target"@, native_target()]) && is_table(
        m,
        seq!["target"@, native_target(), "dependencies"@],
    ) && holds(m, host_path())
}

/// Every feature other than `default` lists its `telekio-host/<name>` counterpart
/// exactly when the dependencies forward to the host.
pub open spec fn features_forwarded(m: Seq<(Seq<Seq<char>>, LeafView)>, host: bool) -> bool {
    is_table(m, seq!["features"@]) && forall|name: Seq<char>|
        #[trigger] is_key_below(m, seq!["features"@], name) ==> (name == "default"@ || (value_at(
            m,
            seq!["features"@, name],
        ) matches Some(LeafView::Array(_)) && array_has_str(
            m,
            seq!["features"@, name],
            "telekio-host/"@ + name,
        ) == host))
}

/// No dependency of the table at `table` is a path dependency.
pub open spec fn no_path_dependencies(
    m: Seq<(Seq<Seq<char>>, LeafView)>,
    table: Seq<char>,
) -> bool {
    forall|name: Seq<char>| #[trigger]
        is_key_below(m, seq![table], name) ==> !holds(m, seq![table, name, "path"@])
}

/// No target of the manifest has development dependencies.
pub open spec fn no_target_dev_dependencies(m: Seq<(Seq<Seq<char>>, LeafView)>) -> bool {
    !is_table(m, seq!["target"@]) || forall|name: Seq<char>| #[trigger]
        is_key_below(m, seq!["target"@], name) ==> !(is_table(m, seq!["target"@, name]) && holds(
            m,
            seq!["target"@, name, "dev-dependencies"@],
        ))
}

/// The generated manifest, build script and library root belong to the
/// current Telekio build with these roles.
pub open spec fn is_current(
    m: Seq<(Seq<Seq<char>>, LeafView)>,
    build: Seq<char>,
    source: Seq<char>,
    source_role: Role,
    dependency_role: Role,
    version: Seq<char>,
    rust_version: Seq<char>,
) -> bool {
    &&& str_at(m, seq!["build-dependencies"@, "telekio-build"@, "version"@]) == Some("="@ + version)
    &&& str_at(m, seq!["package"@, "rust-version"@]) == Some(rust_version)
    &&& is_table(m, seq!["features"@])
    &&& !holds(m, seq!["features"@, "telekio-test"@])
    &&& array_has_str(
        m,
        seq!["dependencies"@, "telekio-abi"@, "features"@],
        source_role.spec_name(),
    )
    &&& !holds(m, seq!["dependencies"@, "telekio-host"@])
    &&& contains_chars(build, "rustc-cfg=telekio_host"@) == (source_role == Role::Host)
    &&& contains_chars(source, "#[doc(inline)]\npub use telekio_host::*;"@) == (source_role
        == Role::Host)
    &&& has_host_dependency(m) == (dependency_role == Role::Host)
    &&& (has_host_dependency(m) ==> bool_at(m, host_path().push("default-features"@)) == Some(
        false,
    ))
    &&& features_forwarded(m, dependency_role == Role::Host)
    &&& no_path_dependencies(m, "dependencies"@)
    &&& (is_table(m, seq!["build-dependencies"@]) ==> no_path_dependencies(
        m,
        "build-dependencies"@,
    ))
    &&& !holds(m, seq!["bench"@]) && !holds(m, seq!["bin"@]) && !holds(
        m,
        seq!["dev-dependencies"@],
    ) && !holds(m, seq!["example"@]) && !holds(m, seq!["test"@])
    &&& is_table(m, seq!["package"@]) && !holds(m, seq!["package"@, "metadata"@])
    &&& no_target_dev_dependencies(m)
}

/// Checks every feature of the manifest against its forwarding to the host.
fn check_features_forwarded(manifest: &Manifest, host: bool) -> (r: bool)
    ensures
        r == features_forwarded(manifest@, host),
{
    let features = path1("features");
    if !manifest.is_table(features.as_slice()) {
        return false;
    }
    let names = manifest.keys_below(features.as_slice());
    let ghost m = manifest@;
    let mut i: usize = 0;
    while i < names.len()
        invariant
            m == manifest@,
            i <= names@.len(),
            forall|name: Seq<char>| #[trigger]
                is_key_below(m, seq!["features"@], name) <==> keys(names@).contains(name),
            forall|j: int|
                0 <= j < i ==> {
                    let name = #[trigger] keys(names@)[j];
                    name == "default"@ || (value_at(m, seq!["features"@, name]) matches Some(
                        LeafView::Array(_),
                    ) && array_has_str(m, seq!["features"@, name], "telekio-host/"@ + name)
                        == host)
                },
        decreases names@.len() - i,
    {
        let name = names[i].as_str();
        assert(keys(names@)[i as int] == name@);
        if !str_eq(name, "default") {
            let path = path2("features", name);
            let is_array = match manifest.value(path.as_slice()) {
                Some(Leaf::Array(_)) => true,
                _ => false,
            };
            if !is_array {
                assert(is_key_below(m, seq!["features"@], name@)) by {
                    assert(keys(names@).contains(name@));
                }
                return false;
            }
            let counterpart = join_str("telekio-host/", name);
            if manifest.array_has_str(path.as_slice(), counterpart.as_str()) != host {
                assert(is_key_below(m, seq!["features"@], name@)) by {
                    assert(keys(names@).contains(name@));
                }
                return false;
            }
        }
        i += 1;
    }
    assert forall|name: Seq<char>| #[trigger] is_key_below(m, seq!["features"@], name) implies (name
        == "default"@ || (value_at(m, seq!["features"@, name]) matches Some(LeafView::Array(_))
        && array_has_str(m, seq!["features"@, name], "telekio-host/"@ + name) == host)) by {
        assert(keys(names@).contains(name));
        let j = choose|j: int| 0 <= j < keys(names@).len() && keys(names@)[j] == name;
        assert(keys(names@)[j] == name);
    }
    true
}

/// No dependency of the table `table` has a `path`.
pub(crate) fn check_no_path_dependencies(manifest: &Manifest, table: &str) -> (r: bool)
    ensures
        r == no_path_dependencies(manifest@, table@),
{
    let table_path = path1(table);
    let names = manifest.keys_below(table_path.as_slice());
    let ghost m = manifest@;
    let mut i: usize = 0;
    while i < names.len()
        invariant
            m == manifest@,
            i <= names@.len(),
            forall|name: Seq<char>| #[trigger]
                is_key_below(m, seq![table@], name) <==> keys(names@).contains(name),
            forall|j: int|
                0 <= j < i ==> !holds(m, seq![table@, #[trigger] keys(names@)[j], "path"@]),
        decreases names@.len() - i,
    {
        let name = names[i].as_str();
        assert(keys(names@)[i as int] == name@);
        let path = path3(table, name, "path");
        if manifest.holds(path.as_slice()) {
            assert(keys(names@).contains(name@));
            assert(is_key_below(m, seq![table@], name@));
            return false;
        }
        i += 1;
    }
    assert forall|name: Seq<char>| #[trigger] is_key_below(m, seq![table@], name) implies !holds(
        m,
        seq![table@, name, "path"@],
    ) by {
        assert(keys(names@).contains(name));
        let j = choose|j: int| 0 <= j < keys(names@).len() && keys(names@)[j] == name;
        assert(keys(names@)[j] == name);
    }
    true
}

/// No target has development dependencies.
pub(crate) fn check_no_target_dev_dependencies(manifest: &Manifest) -> (r: bool)
    ensures
        r == no_target_dev_dependencies(manifest@),
{
    let target = path1("target");
    if !manifest.is_table(target.as_slice()) {
        return true;
    }
    let names = manifest.keys_below(target.as_slice());
    let ghost m = manifest@;
    let mut i: usize = 0;
    while i < names.len()
        invariant
            m == manifest@,
            i <= names@.len(),
            forall|name: Seq<char>| #[trigger]
                is_key_below(m, seq!["target"@], name) <==> keys(names@).contains(name),
            forall|j: int|
                0 <= j < i ==> !(is_table(m, seq!["target"@, #[trigger] keys(names@)[j]]) && holds(
                    m,
                    seq!["target"@, keys(names@)[j], "dev-dependencies"@],
                )),
        decreases names@.len() - i,
    {
        let name = names[i].as_str();
        assert(keys(names@)[i as int] == name@);
        let entry = path2("target", name);
        let dev = path3("target", name, "dev-dependencies");
        if manifest.is_table(entry.as_slice()) && manifest.holds(dev.as_slice()) {
            assert(keys(names@).contains(name@));
            assert(is_key_below(m, seq!["target"@], name@));
            return false;
        }
        i += 1;
    }
    assert forall|name: Seq<char>| #[trigger] is_key_below(m, seq!["target"@], name) implies !(
    is_table(m, seq!["target"@, name]) && holds(m, seq!["target"@, name, "dev-dependencies"@])) by {
        assert(keys(names@).contains(name));
        let j = choose|j: int| 0 <= j < keys(names@).len() && keys(names@)[j] == name;
        assert(keys(names@)[j] == name);
    }
    true
}

fn check_host_dependency(manifest: &Manifest) -> (r: bool)
    ensures
        r == has_host_dependency(manifest@),
{
    manifest.is_table(path1("target").as_slice()) && manifest.is_table(
        path2("target", "cfg(all(any(unix, windows), not(loom)))").as_slice(),
    ) && manifest.is_table(
        path3("target", "cfg(all(any(unix, windows), not(loom)))", "dependencies").as_slice(),
    ) && manifest.holds(
        path4(
            "target",
            "cfg(all(any(unix, windows), not(loom)))",
            "dependencies",
            "telekio-host",
        ).as_slice(),
    )
}

/// Whether the generated patch (its manifest, build script and library root)
/// belongs to this build of Telekio with these roles; `version` and
/// `rust_version` are those of the Telekio build crate.
pub fn patch_current(
    manifest: &Manifest,
    build: &str,
    source: &str,
    source_role: Role,
    dependency_role: Role,
    version: &str,
    rust_version: &str,
) -> (r: Result<bool, PatchError>)
    ensures
        r is Err <==> !is_table(manifest@, seq!["dependencies"@]),
        r matches Err(e) ==> e == PatchError::NoDependencies,
        r matches Ok(current) ==> current == is_current(
            manifest@,
            build@,
            source@,
            source_role,
            dependency_role,
            version@,
            rust_version@,
        ),
{
    if !manifest.is_table(path1("dependencies").as_slice()) {
        return Err(PatchError::NoDependencies);
    }
    let expected_version = join_str("=", version);
    let version_ok = match manifest.get_str(
        path3("build-dependencies", "telekio-build", "version").as_slice(),
    ) {
        Some(found) => str_eq(found.as_str(), expected_version.as_str()),
        None => false,
    };
    let rust_version_ok = match manifest.get_str(path2("package", "rust-version").as_slice()) {
        Some(found) => str_eq(found.as_str(), rust_version),
        None => false,
    };
    let features_ok = manifest.is_table(path1("features").as_slice()) && !manifest.holds(
        path2("features", "telekio-test").as_slice(),
    );
    let role_ok = manifest.array_has_str(
        path3("dependencies", "telekio-abi", "features").as_slice(),
        source_role.name(),
    );
    let no_host = !manifest.holds(path2("dependencies", "telekio-host").as_slice());
    let host_role = source_role == Role::Host;
    let build_ok = contains_str(build, "rustc-cfg=telekio_host") == host_role;
    let source_ok = contains_str(source, "#[doc(inline)]\npub use telekio_host::*;") == host_role;
    let host = check_host_dependency(manifest);
    let host_ok = host == (dependency_role == Role::Host);
    let mut defaults_path = path4(
        "target",
        "cfg(all(any(unix, windows), not(loom)))",
        "dependencies",
        "telekio-host",
    );
    let ghost host_keys = keys(defaults_path@);
    let defaults_key = key("default-features");
    defaults_path.push(defaults_key);
    assert(keys(defaults_path@) =~= host_keys.push(defaults_key@));
    assert(host_keys =~= host_path());
    let host_defaults_ok = !host || manifest.get_bool(defaults_path.as_slice()) == Some(false);
    let forwarded = check_features_forwarded(manifest, dependency_role == Role::Host);
    let paths_ok = check_no_path_dependencies(manifest, "dependencies") && (!manifest.is_table(
        path1("build-dependencies").as_slice(),
    ) || check_no_path_dependencies(manifest, "build-dependencies"));
    let no_targets = !manifest.holds(path1("bench").as_slice()) && !manifest.holds(
        path1("bin").as_slice(),
    ) && !manifest.holds(path1("dev-dependencies").as_slice()) && !manifest.holds(
        path1("example").as_slice(),
    ) && !manifest.holds(path1("test").as_slice());
    let package_ok = manifest.is_table(path1("package").as_slice()) && !manifest.holds(
        path2("package", "metadata").as_slice(),
    );
    let targets_ok = check_no_target_dev_dependencies(manifest);
    Ok(
        version_ok && rust_version_ok && features_ok && role_ok && no_host && build_ok && source_ok
            && host_ok && host_defaults_ok && forwarded && paths_ok && no_targets && package_ok
            && targets_ok,
    )
}


// ---------------------------------------------------------------------------
// Writing the patch manifest.

/// A feature entry that forwarding edits: below `features`, other than `default`.
pub open spec fn is_forwarded_entry(e: (Seq<Seq<char>>, LeafView)) -> bool {
    e.0.len() >= 2 && e.0[0] == "features"@ && e.0[1] != "default"@
}

/// Every feature that forwarding edits is an array.
pub open spec fn forwards_cleanly(m: Seq<(Seq<Seq<char>>, LeafView)>) -> bool {
    forall|i: int|
        0 <= i < m.len() && is_forwarded_entry(#[trigger] m[i]) ==> m[i].0.len() == 2
            && m[i].1 is Array
}

pub open spec fn forwarded_entry(e: (Seq<Seq<char>>, LeafView)) -> (Seq<Seq<char>>, LeafView) {
    if is_forwarded_entry(e) {
        match e.1 {
            LeafView::Array(items) => (
                e.0,
                LeafView::Array(items.push(ItemView::Str("telekio-host/"@ + e.0[1]))),
            ),
            _ => e,
        }
    } else {
        e
    }
}

/// Each feature other than `default` also enables `telekio-host/<name>`; nothing
/// when a feature is not an array.
pub open spec fn forwarded(m: Seq<(Seq<Seq<char>>, LeafView)>) -> Option<
    Seq<(Seq<Seq<char>>, LeafView)>,
> {
    if forwards_cleanly(m) {
        Some(m.map_values(|e: (Seq<Seq<char>>, LeafView)| forwarded_entry(e)))
    } else {
        None
    }
}

/// Entries that dropping the targets' development dependencies removes: those
/// dependencies, and targets left empty.
pub open spec fn is_target_dev_entry(e: (Seq<Seq<char>>, LeafView)) -> bool {
    e.0.len() >= 2 && e.0[0] == "target"@ && ((e.0.len() >= 3 && e.0[2] == "dev-dependencies"@)
        || (e.0.len() == 2 && e.1 is EmptyTable))
}

/// The targets without development dependencies; the `target` table stays.
pub open spec fn pruned_targets(m: Seq<(Seq<Seq<char>>, LeafView)>) -> Seq<
    (Seq<Seq<char>>, LeafView),
> {
    if !is_table(m, seq!["target"@]) {
        m
    } else {
        let rest = keep_entries(m, |e: (Seq<Seq<char>>, LeafView)| !is_target_dev_entry(e));
        if !holds(rest, seq!["target"@]) {
            rest.push((seq!["target"@], LeafView::EmptyTable))
        } else {
            rest
        }
    }
}

fn is_forwarded_entry_exec(e: &Entry) -> (r: bool)
    ensures
        r == is_forwarded_entry(e@),
{
    e.path.len() >= 2 && str_eq(e.path[0].as_str(), "features") && !str_eq(
        e.path[1].as_str(),
        "default",
    )
}

/// Makes every feature other than `default` also enable `telekio-host/<name>`.
pub fn forward_features(manifest: &mut Manifest) -> (r: Result<(), PatchError>)
    ensures
        r is Ok <==> forwarded(old(manifest)@) is Some,
        r is Ok ==> Some(final(manifest)@) == forwarded(old(manifest)@),
        r is Err ==> final(manifest)@ == old(manifest)@ && r == Err::<(), PatchError>(
            PatchError::FeatureNotArray,
        ),
{
    let ghost m = manifest@;
    let mut i: usize = 0;
    while i < manifest.entries.len()
        invariant
            m == manifest@,
            i <= manifest.entries@.len(),
            forall|j: int|
                0 <= j < i && is_forwarded_entry(#[trigger] m[j]) ==> m[j].0.len() == 2
                    && m[j].1 is Array,
        decreases manifest.entries@.len() - i,
    {
        let entry = &manifest.entries[i];
        assert(m[i as int] == entry@);
        if is_forwarded_entry_exec(entry) {
            let ok = entry.path.len() == 2 && match &entry.value {
                Leaf::Array(_) => true,
                _ => false,
            };
            if !ok {
                return Err(PatchError::FeatureNotArray);
            }
        }
        i += 1;
    }
    let ghost original_entries = manifest.entries@;
    let mut rest: Vec<Entry> = Vec::new();
    std::mem::swap(&mut rest, &mut manifest.entries);
    let n = rest.len();
    let mut k: usize = 0;
    assert(original_entries.skip(0) =~= original_entries);
    assert(m.subrange(0, 0).map_values(|e: (Seq<Seq<char>>, LeafView)| forwarded_entry(e))
        =~= manifest@);
    while k < n
        invariant
            n == m.len(),
            m == entry_views(original_entries),
            forwards_cleanly(m),
            k <= n,
            rest@ == original_entries.skip(k as int),
            manifest@ == m.subrange(0, k as int).map_values(
                |e: (Seq<Seq<char>>, LeafView)| forwarded_entry(e),
            ),
        decreases n - k,
    {
        let entry = rest.remove(0);
        assert(entry == original_entries[k as int]);
        assert(rest@ =~= original_entries.skip(k + 1));
        assert(m[k as int] == entry@);
        let forward = is_forwarded_entry_exec(&entry);
        let Entry { path, value } = entry;
        let new_value = if forward {
            match value {
                Leaf::Array(mut items) => {
                    let ghost before = item_views_of(items@);
                    let name = path[1].as_str();
                    let item = ArrayItem::Str(join_str("telekio-host/", name));
                    items.push(item);
                    assert(item_views_of(items@) =~= before.push(item@));
                    Leaf::Array(items)
                },
                other => other,
            }
        } else {
            value
        };
        let new_entry = Entry { path, value: new_value };
        assert(new_entry@ == forwarded_entry(m[k as int]));
        let ghost before = manifest@;
        manifest.entries.push(new_entry);
        assert(manifest@ =~= before.push(new_entry@));
        assert(m.subrange(0, k + 1).map_values(|e: (Seq<Seq<char>>, LeafView)| forwarded_entry(e))
            =~= before.push(forwarded_entry(m[k as int])));
        k += 1;
    }
    assert(m.subrange(0, n as int) =~= m);
    Ok(())
}

pub open spec fn item_views_of(items: Seq<ArrayItem>) -> Seq<ItemView> {
    items.map_values(|item: ArrayItem| item@)
}

fn is_target_dev_entry_exec(e: &Entry) -> (r: bool)
    ensures
        r == is_target_dev_entry(e@),
{
    if e.path.len() < 2 || !str_eq(e.path[0].as_str(), "target") {
        return false;
    }
    if e.path.len() >= 3 && str_eq(e.path[2].as_str(), "dev-dependencies") {
        return true;
    }
    e.path.len() == 2 && match &e.value {
        Leaf::EmptyTable => true,
        _ => false,
    }
}

/// Drops the development dependencies of every target, and targets left empty.
pub fn prune_targets(manifest: &mut Manifest)
    ensures
        final(manifest)@ == pruned_targets(old(manifest)@),
{
    let target = path1("target");
    if !manifest.is_table(target.as_slice()) {
        return;
    }
    let ghost m = manifest@;
    let ghost keep = |e: (Seq<Seq<char>>, LeafView)| !is_target_dev_entry(e);
    let ghost original_entries = manifest.entries@;
    let mut rest: Vec<Entry> = Vec::new();
    std::mem::swap(&mut rest, &mut manifest.entries);
    let n = rest.len();
    let mut k: usize = 0;
    assert(original_entries.skip(0) =~= original_entries);
    assert(m.subrange(0, 0) =~= Seq::<(Seq<Seq<char>>, LeafView)>::empty());
    while k < n
        invariant
            n == m.len(),
            m == entry_views(original_entries),
            keep == (|e: (Seq<Seq<char>>, LeafView)| !is_target_dev_entry(e)),
            k <= n,
            rest@ == original_entries.skip(k as int),
            manifest@ == keep_entries(m.subrange(0, k as int), keep),
        decreases n - k,
    {
        let entry = rest.remove(0);
        assert(entry == original_entries[k as int]);
        assert(rest@ =~= original_entries.skip(k + 1));
        let ghost head = m.subrange(0, k + 1);
        assert(head.drop_last() =~= m.subrange(0, k as int));
        assert(head.last() == entry@);
        if !is_target_dev_entry_exec(&entry) {
            let ghost before = manifest@;
            manifest.entries.push(entry);
            assert(manifest@ =~= before.push(entry@));
        }
        k += 1;
    }
    assert(m.subrange(0, n as int) =~= m);
    if !manifest.holds(target.as_slice()) {
        let ghost before = manifest@;
        let entry = Entry { path: target, value: Leaf::EmptyTable };
        manifest.entries.push(entry);
        assert(manifest@ =~= before.push(entry@));
    }
}

/// A feature of the Tokio package and what it enables.
pub struct Feature {
    pub name: String,
    pub enables: Vec<String>,
}

pub open spec fn string_items(v: Seq<String>) -> Seq<ItemView> {
    v.map_values(|s: String| ItemView::Str(s@))
}

/// The features table's entries, relative to it.
pub open spec fn feature_children(features: Seq<Feature>) -> Seq<(Seq<Seq<char>>, LeafView)> {
    features.map_values(
        |f: Feature| (seq![f.name@], LeafView::Array(string_items(f.enables@))),
    )
}

/// A dependency on this release of a Telekio crate, with the role's feature when there is one.
pub open spec fn registry_children(role: Option<Role>, version: Seq<char>) -> Seq<
    (Seq<Seq<char>>, LeafView),
> {
    let pinned = (seq!["version"@], LeafView::Str("="@ + version));
    match role {
        Some(r) => seq![
            pinned,
            (seq!["features"@], LeafView::Array(seq![ItemView::Str(r.spec_name())])),
        ],
        None => seq![pinned],
    }
}

/// The host runtime dependency: this release, without default features.
pub open spec fn host_children(version: Seq<char>) -> Seq<(Seq<Seq<char>>, LeafView)> {
    registry_children(None, version).push((seq!["default-features"@], LeafView::Bool(false)))
}

/// The native target's dependencies gain the host runtime.
pub open spec fn host_dependency_added(m: Seq<(Seq<Seq<char>>, LeafView)>, version: Seq<char>) -> Result<
    Seq<(Seq<Seq<char>>, LeafView)>,
    PatchError,
> {
    match ensured_table(m, seq!["target"@]) {
        None => Err(PatchError::TargetsNotTable),
        Some(a) => match ensured_table(a, seq!["target"@, native_target()]) {
            None => Err(PatchError::NativeTargetNotTable),
            Some(b) => match ensured_table(b, seq!["target"@, native_target(), "dependencies"@]) {
                None => Err(PatchError::NativeDependenciesNotTable),
                Some(c) => Ok(replaced(c, host_path(), host_children(version))),
            },
        },
    }
}

/// The package fields that the patch does not carry.
pub open spec fn without_package_metadata(m: Seq<(Seq<Seq<char>>, LeafView)>) -> Seq<
    (Seq<Seq<char>>, LeafView),
> {
    let t = seq!["package"@];
    without_key(
        without_key(
            without_key(
                without_key(
                    without_key(
                        without_key(without_key(m, t, "authors"@), t, "categories"@),
                        t,
                        "homepage"@,
                    ),
                    t,
                    "keywords"@,
                ),
                t,
                "metadata"@,
            ),
            t,
            "readme"@,
        ),
        t,
        "repository"@,
    )
}

/// The manifest without development dependencies and extra targets.
pub open spec fn without_extra_targets(m: Seq<(Seq<Seq<char>>, LeafView)>) -> Seq<
    (Seq<Seq<char>>, LeafView),
> {
    removed_under(
        removed_under(
            removed_under(
                removed_under(removed_under(m, seq!["dev-dependencies"@]), seq!["bench"@]),
                seq!["bin"@],
            ),
            seq!["example"@],
        ),
        seq!["test"@],
    )
}

/// The manifest of the patch, made from Tokio's manifest and its resolved features.
pub open spec fn patched_manifest(
    m: Seq<(Seq<Seq<char>>, LeafView)>,
    features: Seq<Feature>,
    source_role: Role,
    dependency_role: Role,
    version: Seq<char>,
    rust_version: Seq<char>,
) -> Result<Seq<(Seq<Seq<char>>, LeafView)>, PatchError> {
    let m1 = replaced(m, seq!["features"@], feature_children(features));
    if !is_table(m1, seq!["package"@]) {
        Err(PatchError::NoPackage)
    } else {
        let m2 = replaced(
            replaced(m1, seq!["package"@, "build"@], seq![(seq![], LeafView::Str("build.rs"@))]),
            seq!["package"@, "rust-version"@],
            seq![(seq![], LeafView::Str(rust_version))],
        );
        let m3 = pruned_targets(without_extra_targets(without_package_metadata(m2)));
        if !is_table(m3, seq!["features"@]) {
            Err(PatchError::NoFeatures)
        } else {
            let m4 = if dependency_role == Role::Host {
                forwarded(m3)
            } else {
                Some(m3)
            };
            match m4 {
                None => Err(PatchError::FeatureNotArray),
                Some(m4) => if !is_table(m4, seq!["dependencies"@]) {
                    Err(PatchError::NoDependencies)
                } else {
                    let m5 = without_key(
                        replaced(
                            m4,
                            seq!["dependencies"@, "telekio-abi"@],
                            registry_children(Some(source_role), version),
                        ),
                        seq!["dependencies"@],
                        "telekio-host"@,
                    );
                    let m6 = if dependency_role == Role::Host {
                        host_dependency_added(m5, version)
                    } else {
                        Ok(m5)
                    };
                    match m6 {
                        Err(e) => Err(e),
                        Ok(m6) => Ok(
                            replaced(
                                m6,
                                seq!["build-dependencies"@],
                                seq![
                                    (
                                        seq!["telekio-build"@, "version"@],
                                        LeafView::Str("="@ + version),
                                    ),
                                ],
                            ),
                        ),
                    }
                },
            }
        }
    }
}

pub(crate) fn entry(path: Vec<String>, value: Leaf) -> (r: Entry)
    ensures
        r.path == path,
        r.value == value,
{
    Entry { path, value }
}

/// A value placed exactly at the path it is written to.
pub(crate) fn value_here(value: Leaf) -> (r: Vec<Entry>)
    ensures
        entry_views(r@) == seq![(Seq::<Seq<char>>::empty(), value@)],
{
    let path: Vec<String> = Vec::new();
    let e = Entry { path, value };
    assert(keys(e.path@) =~= Seq::<Seq<char>>::empty());
    let r = vec![e];
    assert(entry_views(r@) =~= seq![(Seq::<Seq<char>>::empty(), value@)]);
    r
}

/// A dependency on this release of a Telekio crate, with the role's feature when there is one.
pub fn registry_dependency(role: Option<Role>, version: &str) -> (r: Vec<Entry>)
    ensures
        entry_views(r@) == registry_children(role, version@),
{
    let mut r: Vec<Entry> = Vec::new();
    r.push(entry(path1("version"), Leaf::Str(join_str("=", version))));
    if let Some(role) = role {
        let item = ArrayItem::Str(owned(role.name()));
        let items = vec![item];
        assert(crate::manifest::item_views(items@) =~= seq![ItemView::Str(role.spec_name())]);
        r.push(entry(path1("features"), Leaf::Array(items)));
    }
    assert(entry_views(r@) =~= registry_children(role, version@));
    r
}

/// The features table, one entry per feature.
pub(crate) fn feature_entries(features: Vec<Feature>) -> (r: Vec<Entry>)
    ensures
        entry_views(r@) == feature_children(features@),
{
    let ghost all = features@;
    let mut rest = features;
    let n = rest.len();
    let mut r: Vec<Entry> = Vec::new();
    let mut i: usize = 0;
    assert(all.skip(0) =~= all);
    while i < n
        invariant
            n == all.len(),
            i <= n,
            rest@ == all.skip(i as int),
            entry_views(r@) == feature_children(all.subrange(0, i as int)),
        decreases n - i,
    {
        let feature = rest.remove(0);
        assert(feature == all[i as int]);
        assert(rest@ =~= all.skip(i + 1));
        let Feature { name, enables } = feature;
        let ghost enabled = enables@;
        let mut items: Vec<ArrayItem> = Vec::new();
        let mut j: usize = 0;
        while j < enables.len()
            invariant
                enabled == enables@,
                j <= enables@.len(),
                crate::manifest::item_views(items@) == string_items(enables@.subrange(0, j as int)),
            decreases enables@.len() - j,
        {
            let ghost before = crate::manifest::item_views(items@);
            let item = ArrayItem::Str(owned(enables[j].as_str()));
            items.push(item);
            assert(crate::manifest::item_views(items@) =~= before.push(item@));
            assert(string_items(enables@.subrange(0, j + 1)) =~= string_items(
                enables@.subrange(0, j as int),
            ).push(ItemView::Str(enables@[j as int]@)));
            j += 1;
        }
        assert(enables@.subrange(0, enables@.len() as int) =~= enables@);
        let ghost name_view = name@;
        let ghost before = entry_views(r@);
        let e = entry(vec![name], Leaf::Array(items));
        assert(keys(e.path@) =~= seq![name_view]);
        r.push(e);
        assert(entry_views(r@) =~= before.push(e@));
        assert(feature_children(all.subrange(0, i + 1)) =~= feature_children(
            all.subrange(0, i as int),
        ).push(e@));
        i += 1;
    }
    assert(all.subrange(0, n as int) =~= all);
    r
}

/// Turns Tokio's manifest, with its resolved features, into the patch's manifest.
/// `version` and `rust_version` are those of the Telekio build crate.
pub fn write_patch_manifest(
    manifest: &mut Manifest,
    features: Vec<Feature>,
    source_role: Role,
    dependency_role: Role,
    version: &str,
    rust_version: &str,
) -> (r: Result<(), PatchError>)
    ensures
        match r {
            Ok(()) => patched_manifest(
                old(manifest)@,
                features@,
                source_role,
                dependency_role,
                version@,
                rust_version@,
            ) == Ok::<Seq<(Seq<Seq<char>>, LeafView)>, PatchError>(final(manifest)@),
            Err(e) => patched_manifest(
                old(manifest)@,
                features@,
                source_role,
                dependency_role,
                version@,
                rust_version@,
            ) == Err::<Seq<(Seq<Seq<char>>, LeafView)>, PatchError>(e),
        },
{
    let ghost m = manifest@;
    let ghost fs = features@;
    let feature_table = feature_entries(features);
    manifest.replace(path1("features").as_slice(), feature_table);
    if !manifest.is_table(path1("package").as_slice()) {
        return Err(PatchError::NoPackage);
    }
    manifest.replace(path2("package", "build").as_slice(), value_here(Leaf::Str(owned("build.rs"))));
    manifest.replace(
        path2("package", "rust-version").as_slice(),
        value_here(Leaf::Str(owned(rust_version))),
    );
    let package = path1("package");
    manifest.remove_key(package.as_slice(), "authors");
    manifest.remove_key(package.as_slice(), "categories");
    manifest.remove_key(package.as_slice(), "homepage");
    manifest.remove_key(package.as_slice(), "keywords");
    manifest.remove_key(package.as_slice(), "metadata");
    manifest.remove_key(package.as_slice(), "readme");
    manifest.remove_key(package.as_slice(), "repository");
    manifest.remove(path1("dev-dependencies").as_slice());
    manifest.remove(path1("bench").as_slice());
    manifest.remove(path1("bin").as_slice());
    manifest.remove(path1("example").as_slice());
    manifest.remove(path1("test").as_slice());
    prune_targets(manifest);
    if !manifest.is_table(path1("features").as_slice()) {
        return Err(PatchError::NoFeatures);
    }
    if dependency_role == Role::Host {
        forward_features(manifest)?;
    }
    if !manifest.is_table(path1("dependencies").as_slice()) {
        return Err(PatchError::NoDependencies);
    }
    manifest.replace(
        path2("dependencies", "telekio-abi").as_slice(),
        registry_dependency(Some(source_role), version),
    );
    manifest.remove_key(path1("dependencies").as_slice(), "telekio-host");
    if dependency_role == Role::Host {
        if !manifest.ensure_table(path1("target").as_slice()) {
            return Err(PatchError::TargetsNotTable);
        }
        if !manifest.ensure_table(
            path2("target", "cfg(all(any(unix, windows), not(loom)))").as_slice(),
        ) {
            return Err(PatchError::NativeTargetNotTable);
        }
        if !manifest.ensure_table(
            path3("target", "cfg(all(any(unix, windows), not(loom)))", "dependencies").as_slice(),
        ) {
            return Err(PatchError::NativeDependenciesNotTable);
        }
        let mut host = registry_dependency(None, version);
        let ghost before = entry_views(host@);
        let defaults = entry(path1("default-features"), Leaf::Bool(false));
        host.push(defaults);
        assert(entry_views(host@) =~= before.push(defaults@));
        let host_at = path4(
            "target",
            "cfg(all(any(unix, windows), not(loom)))",
            "dependencies",
            "telekio-host",
        );
        manifest.replace(host_at.as_slice(), host);
    }
    let build_dependencies = vec![
        entry(path2("telekio-build", "version"), Leaf::Str(join_str("=", version))),
    ];
    assert(entry_views(build_dependencies@) =~= seq![
        (seq!["telekio-build"@, "version"@], LeafView::Str("="@ + version@)),
    ]);
    manifest.replace(path1("build-dependencies").as_slice(), build_dependencies);
    Ok(())
}


// ---------------------------------------------------------------------------
// The patch's files and when to regenerate them.

/// What the build script adds for a host source: a native target that is not
/// under loom uses the host runtime directly.
pub open spec fn host_build_lines() -> Seq<char> {
    "    if (std::env::var_os(\"CARGO_CFG_UNIX\").is_some() || std::env::var_os(\"CARGO_CFG_WINDOWS\").is_some()) && std::env::var_os(\"CARGO_CFG_LOOM\").is_none() {\n        println!(\"cargo::rustc-cfg=telekio_host\");\n        return;\n    }\n"@
}

pub open spec fn build_script_head() -> Seq<char> {
    "// Generated by Telekio. Prepares Tokio for this target.\n\nfn main() {\n    println!(\"cargo::rustc-check-cfg=cfg(telekio_host)\");\n"@
}

pub open spec fn build_script_tail() -> Seq<char> {
    "    let source = telekio_build::prepare_guest().unwrap();\n    println!(\"cargo::rustc-env=TELEKIO_TOKIO_SOURCE={}\", source.join(\"src/lib.rs\").display());\n}\n"@
}

/// The patch's build script.
pub open spec fn build_script_text(source_role: Role) -> Seq<char> {
    build_script_head() + (if source_role == Role::Host {
        host_build_lines()
    } else {
        ""@
    }) + build_script_tail()
}

pub fn build_script(source_role: Role) -> (r: String)
    ensures
        r@ == build_script_text(source_role),
{
    let head = owned(
        "// Generated by Telekio. Prepares Tokio for this target.\n\nfn main() {\n    println!(\"cargo::rustc-check-cfg=cfg(telekio_host)\");\n",
    );
    let host = if source_role == Role::Host {
        "    if (std::env::var_os(\"CARGO_CFG_UNIX\").is_some() || std::env::var_os(\"CARGO_CFG_WINDOWS\").is_some()) && std::env::var_os(\"CARGO_CFG_LOOM\").is_none() {\n        println!(\"cargo::rustc-cfg=telekio_host\");\n        return;\n    }\n"
    } else {
        ""
    };
    let with_host = join_str(head.as_str(), host);
    join_str(
        with_host.as_str(),
        "    let source = telekio_build::prepare_guest().unwrap();\n    println!(\"cargo::rustc-env=TELEKIO_TOKIO_SOURCE={}\", source.join(\"src/lib.rs\").display());\n}\n",
    )
}

/// The body of the patch's library root: a host source uses the host runtime
/// where the build script found it, and includes the prepared Tokio elsewhere.
pub open spec fn library_body(source_role: Role) -> Seq<char> {
    if source_role == Role::Host {
        "#[cfg(telekio_host)]\n#[doc(inline)]\npub use telekio_host::*;\n\n#[cfg(not(telekio_host))]\ninclude!(env!(\"TELEKIO_TOKIO_SOURCE\"));\n"@
    } else {
        "include!(env!(\"TELEKIO_TOKIO_SOURCE\"));\n"@
    }
}

/// The patch's library root, after Tokio's own crate preamble.
pub open spec fn library_root_text(preamble: Seq<char>, source_role: Role) -> Seq<char> {
    preamble + "// Generated by Telekio. Exposes Tokio for this target.\n\n"@ + library_body(
        source_role,
    )
}

pub fn library_root(preamble: &str, source_role: Role) -> (r: String)
    ensures
        r@ == library_root_text(preamble@, source_role),
{
    let head = join_str(preamble, "// Generated by Telekio. Exposes Tokio for this target.\n\n");
    let body = if source_role == Role::Host {
        "#[cfg(telekio_host)]\n#[doc(inline)]\npub use telekio_host::*;\n\n#[cfg(not(telekio_host))]\ninclude!(env!(\"TELEKIO_TOKIO_SOURCE\"));\n"
    } else {
        "include!(env!(\"TELEKIO_TOKIO_SOURCE\"));\n"
    };
    join_str(head.as_str(), body)
}

/// The patch's manifest file: a header, then the TOML document.
pub fn manifest_file(document: &str) -> (r: String)
    ensures
        r@ == "# Generated by Telekio. Defines Tokio for this target.\n\n"@ + document@,
{
    join_str("# Generated by Telekio. Defines Tokio for this target.\n\n", document)
}

/// The files of a generated patch, as read back from its directory.
pub struct PatchFiles {
    pub manifest: Manifest,
    pub build: String,
    pub source: String,
}

/// What preparing a patch comes to.
#[derive(Debug)]
pub enum PatchAction {
    /// The patch is current: nothing to do.
    Keep,
    /// The patch is to be written again from Tokio's source, fetched into this
    /// directory beside it and removed afterwards.
    Regenerate { source_cache: String, source_role: Role, dependency_role: Role },
}

/// The patch's files (none when one is missing) are current.
pub open spec fn files_current(
    files: Option<&PatchFiles>,
    source_role: Role,
    dependency_role: Role,
    version: Seq<char>,
    rust_version: Seq<char>,
) -> bool {
    match files {
        Some(f) => is_current(
            f.manifest@,
            f.build@,
            f.source@,
            source_role,
            dependency_role,
            version,
            rust_version,
        ),
        None => false,
    }
}

/// Decides, from the patch's files and its directory's parent, whether the
/// patch is kept or regenerated and where Tokio's source is fetched to.
pub fn patch_plan(
    files: Option<&PatchFiles>,
    parent: Option<&str>,
    source_role: Role,
    dependency_role: Role,
    version: &str,
    rust_version: &str,
) -> (r: Result<PatchAction, PatchError>)
    ensures
        match files {
            Some(f) => !is_table(f.manifest@, seq!["dependencies"@]) ==> r == Err::<
                PatchAction,
                PatchError,
            >(PatchError::NoDependencies),
            None => true,
        },
        (match files {
            Some(f) => is_table(f.manifest@, seq!["dependencies"@]),
            None => true,
        }) ==> match r {
            Ok(PatchAction::Keep) => files_current(
                files,
                source_role,
                dependency_role,
                version@,
                rust_version@,
            ),
            Ok(PatchAction::Regenerate { source_cache, source_role: s, dependency_role: d }) => {
                &&& !files_current(files, source_role, dependency_role, version@, rust_version@)
                &&& parent matches Some(p) && source_cache@ == joined_name(p@, "source"@)
                &&& s == source_role
                &&& d == dependency_role
            },
            Err(e) => e == PatchError::NoParent && !files_current(
                files,
                source_role,
                dependency_role,
                version@,
                rust_version@,
            ) && parent is None,
        },
{
    let current = match files {
        Some(f) => patch_current(
            &f.manifest,
            f.build.as_str(),
            f.source.as_str(),
            source_role,
            dependency_role,
            version,
            rust_version,
        )?,
        None => false,
    };
    if current {
        return Ok(PatchAction::Keep);
    }
    match parent {
        Some(p) => Ok(
            PatchAction::Regenerate {
                source_cache: join_name(p, "source"),
                source_role,
                dependency_role,
            },
        ),
        None => Err(PatchError::NoParent),
    }
}

/// `parent` is a proper prefix of `path`: what is left of a path once its final
/// component is taken off.
pub open spec fn is_parent_text(parent: Seq<char>, path: Seq<char>) -> bool {
    parent.len() < path.len() && path.subrange(0, parent.len() as int) == parent
}

/// Calls `std::path::Path::parent` and reads the parent as text. Claims that a
/// parent is the path without its final component, so a proper prefix of it;
/// that the empty path has none; and that a portable path made of a directory,
/// a separator and a plain name has that directory as its parent, as it does on
/// every host. For other paths (with a backslash, a `:` or a leading `//`)
/// which prefix is the parent, and whether there is one, depends on the host's
/// path syntax and is left unsaid.
#[verifier::external_body]
pub(crate) fn path_parent(path: &str) -> (r: Option<String>)
    ensures
        r matches Some(p) ==> is_parent_text(p@, path@),
        path@.len() == 0 ==> r is None,
        match r {
            Some(q) => forall|d: Seq<char>|
                portable(path@) && #[trigger] plain_child_of(path@, d) ==> q@ == d,
            None => forall|d: Seq<char>| !(portable(path@) && #[trigger] plain_child_of(path@, d)),
        },
{
    match std::path::Path::new(path).parent() {
        Some(parent) => match parent.to_str() {
            Some(text) => Some(text.to_owned()),
            None => None,
        },
        None => None,
    }
}

/// Prepares the persistent patch in `directory` for `role`: keeps it when it is
/// current, else says where to fetch Tokio's source to regenerate it.
pub fn prepare_patch(
    files: Option<&PatchFiles>,
    directory: &str,
    role: Role,
    version: &str,
    rust_version: &str,
) -> (r: Result<PatchAction, PatchError>)
    ensures
        ({
            &&& match files {
                Some(f) => !is_table(f.manifest@, seq!["dependencies"@]) ==> r == Err::<
                    PatchAction,
                    PatchError,
                >(PatchError::NoDependencies),
                None => true,
            }
            &&& (match files {
                Some(f) => is_table(f.manifest@, seq!["dependencies"@]),
                None => true,
            }) ==> match r {
                Ok(PatchAction::Keep) => files_current(files, role, role, version@, rust_version@),
                Ok(PatchAction::Regenerate { source_cache, source_role, dependency_role }) => {
                    &&& !files_current(files, role, role, version@, rust_version@)
                    &&& exists|p: Seq<char>|
                        #[trigger] is_parent_text(p, directory@) && source_cache@ == joined_name(
                            p,
                            "source"@,
                        )
                    &&& source_role == role
                    &&& dependency_role == role
                },
                Err(e) => e == PatchError::NoParent && !files_current(
                    files,
                    role,
                    role,
                    version@,
                    rust_version@,
                )
            }
        }),
        forall|d: Seq<char>|
            portable(directory@) && #[trigger] plain_child_of(directory@, d) ==> (r matches Err(e)
                ==> e != PatchError::NoParent) && (r matches Ok(
                PatchAction::Regenerate { source_cache, .. },
            ) ==> source_cache@ == joined_name(d, "source"@)),
{
    let parent = path_parent(directory);
    match &parent {
        Some(p) => patch_plan(files, Some(p.as_str()), role, role, version, rust_version),
        None => patch_plan(files, None, role, role, version, rust_version),
    }
}

/// Prepares the patch of a guest whose dependencies use the host runtime.
pub fn prepare_mixed_guest_patch(
    files: Option<&PatchFiles>,
    directory: &str,
    version: &str,
    rust_version: &str,
) -> (r: Result<PatchAction, PatchError>)
    ensures
        ({
            &&& match files {
                Some(f) => !is_table(f.manifest@, seq!["dependencies"@]) ==> r == Err::<
                    PatchAction,
                    PatchError,
                >(PatchError::NoDependencies),
                None => true,
            }
            &&& (match files {
                Some(f) => is_table(f.manifest@, seq!["dependencies"@]),
                None => true,
            }) ==> match r {
                Ok(PatchAction::Keep) => files_current(
                    files,
                    Role::Guest,
                    Role::Host,
                    version@,
                    rust_version@,
                ),
                Ok(PatchAction::Regenerate { source_cache, source_role, dependency_role }) => {
                    &&& !files_current(files, Role::Guest, Role::Host, version@, rust_version@)
                    &&& exists|p: Seq<char>|
                        #[trigger] is_parent_text(p, directory@) && source_cache@ == joined_name(
                            p,
                            "source"@,
                        )
                    &&& source_role == Role::Guest
                    &&& dependency_role == Role::Host
                },
                Err(e) => e == PatchError::NoParent && !files_current(
                    files,
                    Role::Guest,
                    Role::Host,
                    version@,
                    rust_version@,
                )
            }
        }),
        forall|d: Seq<char>|
            portable(directory@) && #[trigger] plain_child_of(directory@, d) ==> (r matches Err(e)
                ==> e != PatchError::NoParent) && (r matches Ok(
                PatchAction::Regenerate { source_cache, .. },
            ) ==> source_cache@ == joined_name(d, "source"@)),
{
    let parent = path_parent(directory);
    match &parent {
        Some(p) => patch_plan(files, Some(p.as_str()), Role::Guest, Role::Host, version, rust_version),
        None => patch_plan(files, None, Role::Guest, Role::Host, version, rust_version),
    }
}

/// Whether a generated patch, read from its three files, belongs to this build
/// of Telekio with these roles.
pub fn patch_current_text(
    manifest: &str,
    build: &str,
    source: &str,
    source_role: Role,
    dependency_role: Role,
    version: &str,
    rust_version: &str,
) -> (r: Result<bool, PatchError>)
    ensures
        match spec_toml_parse(manifest@) {
            None => r == Err::<bool, PatchError>(PatchError::ManifestUnreadable),
            Some(d) => {
                &&& (r is Err <==> !is_table(flattened(d), seq!["dependencies"@]))
                &&& (r matches Err(e) ==> e == PatchError::NoDependencies)
                &&& (r matches Ok(current) ==> current == is_current(
                    flattened(d),
                    build@,
                    source@,
                    source_role,
                    dependency_role,
                    version@,
                    rust_version@,
                ))
            },
        },
{
    match read_manifest(manifest) {
        Some(m) => patch_current(&m, build, source, source_role, dependency_role, version, rust_version),
        None => Err(PatchError::ManifestUnreadable),
    }
}

/// A patch's files as read: its manifest's text is parsed.
pub fn read_patch_files(manifest: &str, build: String, source: String) -> (r: Result<
    PatchFiles,
    PatchError,
>)
    ensures
        match spec_toml_parse(manifest@) {
            None => r == Err::<PatchFiles, PatchError>(PatchError::ManifestUnreadable),
            Some(d) => r matches Ok(files) && files.manifest@ == flattened(d) && files.build == build
                && files.source == source,
        },
{
    match read_manifest(manifest) {
        Some(m) => Ok(PatchFiles { manifest: m, build, source }),
        None => Err(PatchError::ManifestUnreadable),
    }
}

/// The text of the patch's manifest, written from the text of Tokio's manifest
/// and its resolved features.
pub fn write_patch_text(
    manifest: &str,
    features: Vec<Feature>,
    source_role: Role,
    dependency_role: Role,
    version: &str,
    rust_version: &str,
) -> (r: Result<String, PatchError>)
    ensures
        match spec_toml_parse(manifest@) {
            None => r == Err::<String, PatchError>(PatchError::ManifestUnreadable),
            Some(d) => match patched_manifest(
                flattened(d),
                features@,
                source_role,
                dependency_role,
                version@,
                rust_version@,
            ) {
                Err(e) => r == Err::<String, PatchError>(e),
                Ok(p) => match spec_toml_print(nested(p)) {
                    Some(text) => r matches Ok(t) && t@
                        == "# Generated by Telekio. Defines Tokio for this target.\n\n"@ + text,
                    None => r == Err::<String, PatchError>(PatchError::ManifestUnwritable),
                },
            },
        },
{
    let mut m = match read_manifest(manifest) {
        Some(m) => m,
        None => return Err(PatchError::ManifestUnreadable),
    };
    write_patch_manifest(&mut m, features, source_role, dependency_role, version, rust_version)?;
    match manifest_text(m) {
        Some(text) => Ok(manifest_file(text.as_str())),
        None => Err(PatchError::ManifestUnwritable),
    }
}

/// A current patch fits its dependency role exactly: the native target's
/// dependencies (`target."cfg(all(any(unix, windows), not(loom)))".dependencies`)
/// hold `telekio-host` exactly when the role is Host, and each feature other
/// than `default` lists `telekio-host/<name>` exactly when the role is Host, so
/// under Guest none does. So a patch is current for one pair of roles only: a
/// patch written for a guest source with host dependencies is stale for a
/// guest-only build, and the other way round.
pub proof fn patch_roles_law(
    m: Seq<(Seq<Seq<char>>, LeafView)>,
    build: Seq<char>,
    source: Seq<char>,
    source_role: Role,
    dependency_role: Role,
    version: Seq<char>,
    rust_version: Seq<char>,
)
    requires
        is_current(m, build, source, source_role, dependency_role, version, rust_version),
    ensures
        (is_table(m, seq!["target"@]) && is_table(
            m,
            seq!["target"@, "cfg(all(any(unix, windows), not(loom)))"@],
        ) && is_table(
            m,
            seq!["target"@, "cfg(all(any(unix, windows), not(loom)))"@, "dependencies"@],
        ) && holds(
            m,
            seq![
                "target"@,
                "cfg(all(any(unix, windows), not(loom)))"@,
                "dependencies"@,
                "telekio-host"@,
            ],
        )) == (dependency_role == Role::Host),
        forall|name: Seq<char>|
            #[trigger] is_key_below(m, seq!["features"@], name) && name != "default"@ ==> array_has_str(
                m,
                seq!["features"@, name],
                "telekio-host/"@ + name,
            ) == (dependency_role == Role::Host),
        forall|other_source: Role, other_dependency: Role|
            #[trigger] is_current(
                m,
                build,
                source,
                other_source,
                other_dependency,
                version,
                rust_version,
            ) ==> other_source == source_role && other_dependency == dependency_role,
{
    assert(host_path() =~= seq![
        "target"@,
        "cfg(all(any(unix, windows), not(loom)))"@,
        "dependencies"@,
        "telekio-host"@,
    ]);
}

} // verus!
