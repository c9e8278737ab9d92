//! Fetching Tokio's source through Cargo: the scratch package that depends on
//! it, the commands run on it, the registry package that Cargo resolved, and
//! the steps that bring its source into place.
use vstd::prelude::*;

use crate::json_value::{
    JsonValue, JsonView, field, json_field, json_text, lemma_json_entry_views, lemma_json_views,
    json_entry_views, json_view, json_views, parse_json, spec_json_parse, text_field,
};
use crate::package::{Feature, is_parent_text, path_parent};
use crate::text::{plain_child_of, portable, contains_chars, contains_str, join_name, join_str, joined_name, owned, starts_with_str};

verus! {

/// The Tokio release that Telekio is built against.
pub fn tokio_version() -> (r: &'static str)
    ensures
        r@ == "1.53.1"@,
{
    "1.53.1"
}

/// The manifest of the scratch package through which Cargo fetches `package`.
pub open spec fn scratch_manifest_text(package: Seq<char>, version: Seq<char>) -> Seq<char> {
    "[package]\nname = \"telekio-"@ + package + "-source\"\nversion = \"0.0.0\"\nedition = \"2024\"\n\n[workspace]\n\n[dependencies]\n"@
        + package + " = \"="@ + version + "\"\n"@
}

pub fn scratch_manifest(package: &str, version: &str) -> (r: String)
    ensures
        r@ == scratch_manifest_text(package@, version@),
{
    let a = join_str("[package]\nname = \"telekio-", package);
    let b = join_str(
        a.as_str(),
        "-source\"\nversion = \"0.0.0\"\nedition = \"2024\"\n\n[workspace]\n\n[dependencies]\n",
    );
    let c = join_str(b.as_str(), package);
    let d = join_str(c.as_str(), " = \"=");
    let e = join_str(d.as_str(), version);
    join_str(e.as_str(), "\"\n")
}

/// An existing scratch manifest, made its own workspace when it is not one yet;
/// none when it needs no change.
pub fn with_workspace(manifest: &str) -> (r: Option<String>)
    ensures
        r matches Some(text) ==> !contains_chars(manifest@, "[workspace]"@) && text@ == manifest@
            + "\n[workspace]\n"@,
        r is None ==> contains_chars(manifest@, "[workspace]"@),
{
    if contains_str(manifest, "[workspace]") {
        None
    } else {
        Some(join_str(manifest, "\n[workspace]\n"))
    }
}

/// The directory that a package's source is fetched through, and the one it is copied to.
pub fn scratch_directory(output: &str, package: &str, version: &str) -> (r: String)
    ensures
        r@ == joined_name(output@, package@ + "-source-"@ + version@),
{
    let a = join_str(package, "-source-");
    let b = join_str(a.as_str(), version);
    join_name(output, b.as_str())
}

pub fn destination_directory(output: &str, package: &str, version: &str) -> (r: String)
    ensures
        r@ == joined_name(output@, package@ + "-"@ + version@),
{
    let a = join_str(package, "-");
    let b = join_str(a.as_str(), version);
    join_name(output, b.as_str())
}

/// Cargo's arguments that write the scratch package's lockfile.
pub fn lockfile_arguments(manifest: &str, offline: bool) -> (r: Vec<String>)
    ensures
        r@.map_values(|a: String| a@) == seq!["generate-lockfile"@, "--manifest-path"@, manifest@]
            + (if offline {
            seq!["--offline"@]
        } else {
            Seq::<Seq<char>>::empty()
        }),
{
    let mut r: Vec<String> = Vec::new();
    r.push(owned("generate-lockfile"));
    r.push(owned("--manifest-path"));
    r.push(owned(manifest));
    if offline {
        r.push(owned("--offline"));
    }
    assert(r@.map_values(|a: String| a@) =~= seq!["generate-lockfile"@, "--manifest-path"@, manifest@]
        + (if offline {
        seq!["--offline"@]
    } else {
        Seq::<Seq<char>>::empty()
    }));
    r
}

/// Cargo's arguments that describe the scratch package's resolved dependencies.
pub fn metadata_arguments(manifest: &str, offline: bool) -> (r: Vec<String>)
    ensures
        r@.map_values(|a: String| a@) == seq![
            "metadata"@,
            "--format-version"@,
            "1"@,
            "--locked"@,
            "--manifest-path"@,
            manifest@,
        ] + (if offline {
            seq!["--offline"@]
        } else {
            Seq::<Seq<char>>::empty()
        }),
{
    let mut r: Vec<String> = Vec::new();
    r.push(owned("metadata"));
    r.push(owned("--format-version"));
    r.push(owned("1"));
    r.push(owned("--locked"));
    r.push(owned("--manifest-path"));
    r.push(owned(manifest));
    if offline {
        r.push(owned("--offline"));
    }
    assert(r@.map_values(|a: String| a@) =~= seq![
        "metadata"@,
        "--format-version"@,
        "1"@,
        "--locked"@,
        "--manifest-path"@,
        manifest@,
    ] + (if offline {
        seq!["--offline"@]
    } else {
        Seq::<Seq<char>>::empty()
    }));
    r
}

/// A package as Cargo's metadata describes it; a field is missing when it is
/// absent or not a string.
pub struct PackageRecord {
    pub name: Option<String>,
    pub version: Option<String>,
    pub source: Option<String>,
    pub manifest_path: Option<String>,
    /// The package's features, when each is a list of names.
    pub features: Option<Vec<Feature>>,
}

pub open spec fn text_of(field: Option<String>) -> Option<Seq<char>> {
    match field {
        Some(s) => Some(s@),
        None => None,
    }
}

pub open spec fn has_prefix(s: Seq<char>, prefix: Seq<char>) -> bool {
    prefix.len() <= s.len() && s.subrange(0, prefix.len() as int) == prefix
}

/// The record is `package` at `version` from a registry.
pub open spec fn is_registry_package(
    record: PackageRecord,
    package: Seq<char>,
    version: Seq<char>,
) -> bool {
    &&& text_of(record.name) == Some(package)
    &&& text_of(record.version) == Some(version)
    &&& match text_of(record.source) {
        Some(s) => has_prefix(s, "registry+"@),
        None => false,
    }
}

/// How many of the records are `package` at `version` from a registry.
pub open spec fn registry_matches(
    records: Seq<PackageRecord>,
    package: Seq<char>,
    version: Seq<char>,
) -> nat
    decreases records.len(),
{
    if records.len() == 0 {
        0
    } else {
        registry_matches(records.drop_last(), package, version) + if is_registry_package(
            records.last(),
            package,
            version,
        ) {
            1nat
        } else {
            0nat
        }
    }
}

/// Why Tokio's source could not be fetched.
#[derive(Debug)]
pub enum SourceError {
    /// Cargo resolved this many registry packages of the name and version, not one.
    NotOneRegistryPackage(usize),
    NoManifestPath,
    ManifestHasNoParent,
    LockfileFailed,
    /// Cargo could not describe the scratch package; its message.
    MetadataFailed(String),
}

fn is_registry_package_exec(record: &PackageRecord, package: &str, version: &str) -> (r: bool)
    ensures
        r == is_registry_package(*record, package@, version@),
{
    let name_ok = match &record.name {
        Some(n) => crate::text::str_eq(n.as_str(), package),
        None => false,
    };
    let version_ok = match &record.version {
        Some(v) => crate::text::str_eq(v.as_str(), version),
        None => false,
    };
    let source_ok = match &record.source {
        Some(s) => starts_with_str(s.as_str(), "registry+"),
        None => false,
    };
    name_ok && version_ok && source_ok
}

/// The index of the one registry package of this name and version.
pub fn select_registry_package(records: &[PackageRecord], package: &str, version: &str) -> (r:
    Result<usize, SourceError>)
    ensures
        registry_matches(records@, package@, version@) <= records@.len(),
        match r {
            Ok(i) => registry_matches(records@, package@, version@) == 1 && i < records@.len()
                && is_registry_package(records@[i as int], package@, version@),
            Err(e) => {
                &&& registry_matches(records@, package@, version@) != 1
                &&& e matches SourceError::NotOneRegistryPackage(n) && n == registry_matches(
                    records@,
                    package@,
                    version@,
                )
            },
        },
{
    let mut count: usize = 0;
    let mut found: usize = 0;
    let mut i: usize = 0;
    while i < records.len()
        invariant
            i <= records@.len(),
            count == registry_matches(records@.subrange(0, i as int), package@, version@),
            count <= i,
            count > 0 ==> found < i && is_registry_package(records@[found as int], package@, version@),
        decreases records@.len() - i,
    {
        let ghost head = records@.subrange(0, i + 1);
        assert(head.drop_last() =~= records@.subrange(0, i as int));
        if is_registry_package_exec(&records[i], package, version) {
            count = count + 1;
            found = i;
        }
        i += 1;
    }
    assert(records@.subrange(0, records@.len() as int) =~= records@);
    if count == 1 {
        Ok(found)
    } else {
        Err(SourceError::NotOneRegistryPackage(count))
    }
}

/// The record's manifest path is portable and its directory is `d`.
pub open spec fn manifest_parent_is(record: PackageRecord, d: Seq<char>) -> bool {
    match record.manifest_path {
        Some(m) => portable(m@) && plain_child_of(m@, d),
        None => false,
    }
}

proof fn lemma_match_counted(records: Seq<PackageRecord>, package: Seq<char>, version: Seq<char>, i: int)
    requires
        0 <= i < records.len(),
        is_registry_package(records[i], package, version),
    ensures
        registry_matches(records, package, version) >= 1,
    decreases records.len(),
{
    if i < records.len() - 1 {
        lemma_match_counted(records.drop_last(), package, version, i);
    }
}

/// When one record matches, any two matching records are the same one.
proof fn lemma_single_match(
    records: Seq<PackageRecord>,
    package: Seq<char>,
    version: Seq<char>,
    i: int,
    j: int,
)
    requires
        registry_matches(records, package, version) == 1,
        0 <= i < records.len(),
        0 <= j < records.len(),
        is_registry_package(records[i], package, version),
        is_registry_package(records[j], package, version),
    ensures
        i == j,
    decreases records.len(),
{
    let n = records.len() - 1;
    let rest = records.drop_last();
    if i < n && j < n {
        lemma_match_counted(rest, package, version, i);
        lemma_single_match(rest, package, version, i, j);
    } else if i < n {
        lemma_match_counted(rest, package, version, i);
    } else if j < n {
        lemma_match_counted(rest, package, version, j);
    }
}

/// Where the registry package's source lies (the directory of its manifest),
/// and which record it is.
pub fn package_source(records: &[PackageRecord], package: &str, version: &str) -> (r: Result<
    (String, usize),
    SourceError,
>)
    ensures
        match r {
            Ok((directory, i)) => {
                &&& registry_matches(records@, package@, version@) == 1
                &&& i < records@.len()
                &&& is_registry_package(records@[i as int], package@, version@)
                &&& records@[i as int].manifest_path matches Some(m) && is_parent_text(
                    directory@,
                    m@,
                )
            },
            Err(SourceError::NotOneRegistryPackage(n)) => registry_matches(
                records@,
                package@,
                version@,
            ) != 1 && n == registry_matches(records@, package@, version@),
            Err(SourceError::NoManifestPath) => registry_matches(records@, package@, version@) == 1
                && exists|i: int|
                {
                    &&& 0 <= i < records@.len()
                    &&& is_registry_package(#[trigger] records@[i], package@, version@)
                    &&& records@[i].manifest_path is None
                },
            Err(SourceError::ManifestHasNoParent) => registry_matches(records@, package@, version@)
                == 1 && exists|i: int|
                {
                    &&& 0 <= i < records@.len()
                    &&& is_registry_package(#[trigger] records@[i], package@, version@)
                    &&& records@[i].manifest_path is Some
                },
            Err(_) => false,
        },
        forall|i: int, d: Seq<char>|
            #![trigger manifest_parent_is(records@[i], d)]
            registry_matches(records@, package@, version@) == 1 && 0 <= i < records@.len()
                && is_registry_package(records@[i], package@, version@) && manifest_parent_is(
                records@[i],
                d,
            ) ==> (r matches Ok((dir, j)) && j == i && dir@ == d),
{
    let i = match select_registry_package(records, package, version) {
        Ok(i) => i,
        Err(e) => return Err(e),
    };
    assert forall|k: int|
        0 <= k < records@.len() && is_registry_package(records@[k], package@, version@) implies k
        == i by {
        lemma_single_match(records@, package@, version@, k, i as int);
    }
    match &records[i].manifest_path {
        Some(manifest) => match path_parent(manifest.as_str()) {
            Some(directory) => Ok((directory, i)),
            None => Err(SourceError::ManifestHasNoParent),
        },
        None => Err(SourceError::NoManifestPath),
    }
}

/// A package being fetched: where to, which release, whether Cargo may use the
/// network, and whether the build is told to rerun when the source changes.
pub struct Fetch {
    pub output: String,
    pub package: String,
    pub version: String,
    pub offline: bool,
    pub emit: bool,
}

/// How far fetching has come.
#[derive(Clone, Copy, Debug, PartialEq, Eq, Structural)]
pub enum FetchStage {
    Start,
    /// Waiting for the scratch manifest, if there is one.
    Manifest,
    /// Waiting to hear whether the scratch lockfile is there.
    Lock,
    /// Waiting for Cargo to write the lockfile.
    Lockfile,
    /// Waiting for Cargo's description of the scratch package.
    Metadata,
    /// Waiting for the source to be copied into place.
    Copy { record: usize },
    Done { record: usize },
}

/// What the outside world reports back.
pub enum FetchEvent {
    Begin,
    /// The scratch manifest's text, none when there is no such file.
    Manifest(Option<String>),
    /// Whether the scratch lockfile is there.
    Lock(bool),
    /// Whether Cargo wrote the lockfile.
    Lockfile(bool),
    /// The packages that Cargo described, or its error message.
    Metadata(Result<Vec<PackageRecord>, String>),
    Copied,
}

/// What to do next.
pub enum FetchAction {
    /// Create `directory` and all its parents, then read `manifest` if it is a file.
    Prepare { directory: String, manifest: String },
    /// Write these files, then see whether `lock` is a file.
    Write { files: Vec<(String, String)>, lock: String },
    /// Run Cargo with these arguments, from the temporary directory.
    Cargo { arguments: Vec<String> },
    /// Replace `destination` by a copy of `source`, leaving out `.git`; then
    /// tell the build these lines.
    Copy { source: String, destination: String, lines: Vec<String> },
    /// The source is in place at `destination`.
    Finish { destination: String },
}

pub open spec fn scratch(f: &Fetch) -> Seq<char> {
    joined_name(f.output@, f.package@ + "-source-"@ + f.version@)
}

pub open spec fn scratch_manifest_path(f: &Fetch) -> Seq<char> {
    joined_name(scratch(f), "Cargo.toml"@)
}

pub open spec fn lock_path(f: &Fetch) -> Seq<char> {
    joined_name(scratch(f), "Cargo.lock"@)
}

pub open spec fn destination(f: &Fetch) -> Seq<char> {
    joined_name(f.output@, f.package@ + "-"@ + f.version@)
}

pub open spec fn texts(v: Seq<String>) -> Seq<Seq<char>> {
    v.map_values(|a: String| a@)
}

pub open spec fn file_views(v: Seq<(String, String)>) -> Seq<(Seq<char>, Seq<char>)> {
    v.map_values(|p: (String, String)| (p.0@, p.1@))
}

/// The lines that make the build rerun when the fetched source, the lockfile
/// or Cargo's home changes.
pub open spec fn rerun_lines(source_manifest: Seq<char>, lock: Seq<char>) -> Seq<Seq<char>> {
    seq![
        "cargo:rerun-if-changed="@ + source_manifest,
        "cargo:rerun-if-changed="@ + lock,
        "cargo:rerun-if-env-changed=CARGO_HOME"@,
    ]
}

/// Record `i` is the one registry package of the name and version, and its
/// source lies in `source`, the directory of its manifest.
pub open spec fn selected_source(
    records: Seq<PackageRecord>,
    package: Seq<char>,
    version: Seq<char>,
    i: int,
    source: Seq<char>,
) -> bool {
    &&& registry_matches(records, package, version) == 1
    &&& 0 <= i < records.len()
    &&& is_registry_package(records[i], package, version)
    &&& match records[i].manifest_path {
        Some(m) => is_parent_text(source, m@),
        None => false,
    }
    &&& forall|d: Seq<char>| #[trigger] manifest_parent_is(records[i], d) ==> source == d
}

/// The event is one that the stage waits for.
fn rerun_report(f: &Fetch, source: &str, scratch_dir: &str) -> (lines: Vec<String>)
    requires
        scratch_dir@ == scratch(f),
    ensures
        texts(lines@) == (if f.emit {
            rerun_lines(joined_name(source@, "Cargo.toml"@), lock_path(f))
        } else {
            Seq::<Seq<char>>::empty()
        }),
{
    let mut lines: Vec<String> = Vec::new();
    if f.emit {
        let source_manifest = join_name(source, "Cargo.toml");
        let lock = join_name(scratch_dir, "Cargo.lock");
        lines.push(join_str("cargo:rerun-if-changed=", source_manifest.as_str()));
        lines.push(join_str("cargo:rerun-if-changed=", lock.as_str()));
        lines.push(owned("cargo:rerun-if-env-changed=CARGO_HOME"));
    }
    assert(texts(lines@) =~= (if f.emit {
        rerun_lines(joined_name(source@, "Cargo.toml"@), lock_path(f))
    } else {
        Seq::<Seq<char>>::empty()
    }));
    lines
}

pub open spec fn expected(stage: FetchStage, event: &FetchEvent) -> bool {
    match stage {
        FetchStage::Start => *event is Begin,
        FetchStage::Manifest => *event is Manifest,
        FetchStage::Lock => *event is Lock,
        FetchStage::Lockfile => *event is Lockfile,
        FetchStage::Metadata => *event is Metadata,
        FetchStage::Copy { .. } => *event is Copied,
        FetchStage::Done { .. } => false,
    }
}

fn metadata_step(f: &Fetch, manifest: &str) -> (r: (FetchStage, FetchAction))
    ensures
        r.0 == FetchStage::Metadata,
        r.1 matches FetchAction::Cargo { arguments } && texts(arguments@) == seq![
            "metadata"@,
            "--format-version"@,
            "1"@,
            "--locked"@,
            "--manifest-path"@,
            manifest@,
        ] + (if f.offline {
            seq!["--offline"@]
        } else {
            Seq::<Seq<char>>::empty()
        }),
{
    let arguments = metadata_arguments(manifest, f.offline);
    assert(texts(arguments@) == arguments@.map_values(|a: String| a@));
    (FetchStage::Metadata, FetchAction::Cargo { arguments })
}

/// Takes one step of fetching a package's source: from where fetching stands
/// and what was reported, the next stage and what to do.
pub fn prepare_tokio(f: &Fetch, stage: FetchStage, event: FetchEvent) -> (r: Result<
    (FetchStage, FetchAction),
    SourceError,
>)
    requires
        expected(stage, &event),
    ensures
        match (stage, event) {
            (FetchStage::Start, _) => r matches Ok((s, FetchAction::Prepare { directory, manifest }))
                && s == FetchStage::Manifest && directory@ == joined_name(scratch(f), "src"@)
                && manifest@ == scratch_manifest_path(f),
            (FetchStage::Manifest, FetchEvent::Manifest(existing)) => r matches Ok(
                (s, FetchAction::Write { files, lock }),
            ) && s == FetchStage::Lock && lock@ == lock_path(f) && file_views(files@) == match existing {
                None => seq![
                    (scratch_manifest_path(f), scratch_manifest_text(f.package@, f.version@)),
                    (joined_name(joined_name(scratch(f), "src"@), "lib.rs"@), ""@),
                ],
                Some(text) => if contains_chars(text@, "[workspace]"@) {
                    Seq::<(Seq<char>, Seq<char>)>::empty()
                } else {
                    seq![(scratch_manifest_path(f), text@ + "\n[workspace]\n"@)]
                },
            },
            (FetchStage::Lock, FetchEvent::Lock(present)) => if present {
                r matches Ok((s, FetchAction::Cargo { arguments })) && s == FetchStage::Metadata
                    && texts(arguments@) == seq![
                    "metadata"@,
                    "--format-version"@,
                    "1"@,
                    "--locked"@,
                    "--manifest-path"@,
                    scratch_manifest_path(f),
                ] + (if f.offline {
                    seq!["--offline"@]
                } else {
                    Seq::<Seq<char>>::empty()
                })
            } else {
                r matches Ok((s, FetchAction::Cargo { arguments })) && s == FetchStage::Lockfile
                    && texts(arguments@) == seq![
                    "generate-lockfile"@,
                    "--manifest-path"@,
                    scratch_manifest_path(f),
                ] + (if f.offline {
                    seq!["--offline"@]
                } else {
                    Seq::<Seq<char>>::empty()
                })
            },
            (FetchStage::Lockfile, FetchEvent::Lockfile(written)) => if written {
                r matches Ok((s, FetchAction::Cargo { arguments })) && s == FetchStage::Metadata
                    && texts(arguments@) == seq![
                    "metadata"@,
                    "--format-version"@,
                    "1"@,
                    "--locked"@,
                    "--manifest-path"@,
                    scratch_manifest_path(f),
                ] + (if f.offline {
                    seq!["--offline"@]
                } else {
                    Seq::<Seq<char>>::empty()
                })
            } else {
                r matches Err(SourceError::LockfileFailed)
            },
            (FetchStage::Metadata, FetchEvent::Metadata(described)) => match described {
                Err(message) => r matches Err(SourceError::MetadataFailed(m)) && m@ == message@,
                Ok(records) => match r {
                    Ok((s, FetchAction::Copy { source, destination: d, lines })) => {
                        &&& s is Copy
                        &&& selected_source(
                            records@,
                            f.package@,
                            f.version@,
                            s->Copy_record as int,
                            source@,
                        )
                        &&& d@ == destination(f)
                        &&& texts(lines@) == (if f.emit {
                            rerun_lines(joined_name(source@, "Cargo.toml"@), lock_path(f))
                        } else {
                            Seq::<Seq<char>>::empty()
                        })
                    },
                    Ok(_) => false,
                    Err(SourceError::NotOneRegistryPackage(n)) => registry_matches(
                        records@,
                        f.package@,
                        f.version@,
                    ) != 1 && n == registry_matches(records@, f.package@, f.version@),
                    Err(SourceError::NoManifestPath) => registry_matches(
                        records@,
                        f.package@,
                        f.version@,
                    ) == 1,
                    Err(SourceError::ManifestHasNoParent) => registry_matches(
                        records@,
                        f.package@,
                        f.version@,
                    ) == 1 && forall|i: int, d: Seq<char>|
                        #![trigger manifest_parent_is(records@[i], d)]
                        0 <= i < records@.len() && is_registry_package(
                            records@[i],
                            f.package@,
                            f.version@,
                        ) ==> !manifest_parent_is(records@[i], d),
                    Err(_) => false,
                },
            },
            (FetchStage::Copy { record }, _) => r matches Ok(
                (s, FetchAction::Finish { destination: d }),
            ) && s == (FetchStage::Done { record }) && d@ == destination(f),
            _ => false,
        },
{
    let scratch_dir = scratch_directory(f.output.as_str(), f.package.as_str(), f.version.as_str());
    let manifest = join_name(scratch_dir.as_str(), "Cargo.toml");
    match (stage, event) {
        (FetchStage::Start, _) => Ok(
            (
                FetchStage::Manifest,
                FetchAction::Prepare { directory: join_name(scratch_dir.as_str(), "src"), manifest },
            ),
        ),
        (FetchStage::Manifest, FetchEvent::Manifest(existing)) => {
            let lock = join_name(scratch_dir.as_str(), "Cargo.lock");
            let mut files: Vec<(String, String)> = Vec::new();
            match existing {
                None => {
                    let text = scratch_manifest(f.package.as_str(), f.version.as_str());
                    let source_dir = join_name(scratch_dir.as_str(), "src");
                    let library = join_name(source_dir.as_str(), "lib.rs");
                    files.push((manifest, text));
                    files.push((library, owned("")));
                },
                Some(text) => match with_workspace(text.as_str()) {
                    Some(updated) => files.push((manifest, updated)),
                    None => {},
                },
            }
            assert(file_views(files@) == files@.map_values(
                |p: (String, String)| (p.0@, p.1@),
            ));
            Ok((FetchStage::Lock, FetchAction::Write { files, lock }))
        },
        (FetchStage::Lock, FetchEvent::Lock(present)) => if present {
            Ok(metadata_step(f, manifest.as_str()))
        } else {
            let arguments = lockfile_arguments(manifest.as_str(), f.offline);
            assert(texts(arguments@) == arguments@.map_values(|a: String| a@));
            Ok((FetchStage::Lockfile, FetchAction::Cargo { arguments }))
        },
        (FetchStage::Lockfile, FetchEvent::Lockfile(written)) => if written {
            Ok(metadata_step(f, manifest.as_str()))
        } else {
            Err(SourceError::LockfileFailed)
        },
        (FetchStage::Metadata, FetchEvent::Metadata(described)) => match described {
            Err(message) => Err(SourceError::MetadataFailed(message)),
            Ok(records) => {
                match package_source(records.as_slice(), f.package.as_str(), f.version.as_str()) {
                    Ok((source, record)) => {
                        let lines = rerun_report(f, source.as_str(), scratch_dir.as_str());
                        Ok(
                            (
                                FetchStage::Copy { record },
                                FetchAction::Copy {
                                    source,
                                    destination: destination_directory(
                                        f.output.as_str(),
                                        f.package.as_str(),
                                        f.version.as_str(),
                                    ),
                                    lines,
                                },
                            ),
                        )
                    },
                    Err(e) => Err(e),
                }
            },
        },
        (FetchStage::Copy { record }, _) => {
            let destination = destination_directory(
                f.output.as_str(),
                f.package.as_str(),
                f.version.as_str(),
            );
            Ok((FetchStage::Done { record }, FetchAction::Finish { destination }))
        },
        _ => {
            assert(false);
            Err(SourceError::LockfileFailed)
        },
    }
}

/// The names that an array of strings holds; none when an item is not a string.
pub open spec fn json_strings(items: Seq<JsonView>) -> Option<Seq<Seq<char>>> {
    if forall|i: int| 0 <= i < items.len() ==> (#[trigger] items[i]) is Str {
        Some(items.map_values(|v: JsonView| v->Str_0))
    } else {
        None
    }
}

pub open spec fn feature_names(v: JsonView) -> Option<Seq<Seq<char>>> {
    match v {
        JsonView::Array(items) => json_strings(items),
        _ => None,
    }
}

/// Each feature and the names it enables; none unless the value is an object
/// whose every entry is an array of strings.
pub open spec fn json_features(v: Option<JsonView>) -> Option<Seq<(Seq<char>, Seq<Seq<char>>)>> {
    match v {
        Some(JsonView::Object(entries)) => if forall|i: int|
            0 <= i < entries.len() ==> #[trigger] feature_names(entries[i].1) is Some {
            Some(
                entries.map_values(
                    |e: (Seq<char>, JsonView)| (e.0, feature_names(e.1)->Some_0),
                ),
            )
        } else {
            None
        },
        _ => None,
    }
}

pub open spec fn feature_views(features: Seq<Feature>) -> Seq<(Seq<char>, Seq<Seq<char>>)> {
    features.map_values(|f: Feature| (f.name@, texts(f.enables@)))
}

/// The record holds what Cargo's description of the package says.
pub open spec fn record_of(r: PackageRecord, p: JsonView) -> bool {
    &&& text_of(r.name) == json_text(json_field(p, "name"@))
    &&& text_of(r.version) == json_text(json_field(p, "version"@))
    &&& text_of(r.source) == json_text(json_field(p, "source"@))
    &&& text_of(r.manifest_path) == json_text(json_field(p, "manifest_path"@))
    &&& match r.features {
        Some(fs) => json_features(json_field(p, "features"@)) == Some(feature_views(fs@)),
        None => json_features(json_field(p, "features"@)) is None,
    }
}

fn strings_of(items: &Vec<JsonValue>) -> (r: Option<Vec<String>>)
    ensures
        match r {
            Some(names) => json_strings(json_views(items@)) == Some(texts(names@)),
            None => json_strings(json_views(items@)) is None,
        },
{
    let ghost views = json_views(items@);
    proof {
        lemma_json_views(items@);
    }
    let mut names: Vec<String> = Vec::new();
    let mut i: usize = 0;
    while i < items.len()
        invariant
            views == items@.map_values(|v: JsonValue| json_view(v)),
            views == json_views(items@),
            i <= items@.len(),
            names@.len() == i,
            forall|j: int| 0 <= j < i ==> (#[trigger] views[j]) is Str && views[j]->Str_0
                == names@[j]@,
        decreases items@.len() - i,
    {
        assert(views[i as int] == json_view(items@[i as int]));
        match &items[i] {
            JsonValue::Str(s) => {
                names.push(owned(s.as_str()));
            },
            _ => {
                assert(!(views[i as int] is Str));
                return None;
            },
        }
        i += 1;
    }
    assert(texts(names@) =~= views.map_values(|v: JsonView| v->Str_0));
    Some(names)
}

fn features_of(v: Option<&JsonValue>) -> (r: Option<Vec<Feature>>)
    ensures
        match r {
            Some(fs) => json_features(crate::json_value::opt_view(v)) == Some(feature_views(fs@)),
            None => json_features(crate::json_value::opt_view(v)) is None,
        },
{
    let entries = match v {
        Some(JsonValue::Object(entries)) => entries,
        _ => return None,
    };
    let ghost views = json_entry_views(entries@);
    proof {
        lemma_json_entry_views(entries@);
    }
    assert(crate::json_value::opt_view(v) == Some(JsonView::Object(views)));
    let mut features: Vec<Feature> = Vec::new();
    let mut i: usize = 0;
    while i < entries.len()
        invariant
            views == entries@.map_values(|e: (String, JsonValue)| (e.0@, json_view(e.1))),
            crate::json_value::opt_view(v) == Some(JsonView::Object(views)),
            i <= entries@.len(),
            features@.len() == i,
            forall|j: int|
                0 <= j < i ==> #[trigger] feature_names(views[j].1) is Some && (
                views[j].0, feature_names(views[j].1)->Some_0) == (features@[j].name@, texts(
                    features@[j].enables@,
                )),
        decreases entries@.len() - i,
    {
        assert(views[i as int] == (entries@[i as int].0@, json_view(entries@[i as int].1)));
        match &entries[i].1 {
            JsonValue::Array(items) => match strings_of(items) {
                Some(names) => {
                    features.push(Feature { name: owned(entries[i].0.as_str()), enables: names });
                },
                None => {
                    assert(feature_names(views[i as int].1) is None);
                    return None;
                },
            },
            _ => {
                assert(feature_names(views[i as int].1) is None);
                return None;
            },
        }
        i += 1;
    }
    assert(feature_views(features@) =~= views.map_values(
        |e: (Seq<char>, JsonView)| (e.0, feature_names(e.1)->Some_0),
    ));
    Some(features)
}

fn record_from(p: &JsonValue) -> (r: PackageRecord)
    ensures
        record_of(r, p@),
{
    PackageRecord {
        name: text_field(p, "name"),
        version: text_field(p, "version"),
        source: text_field(p, "source"),
        manifest_path: text_field(p, "manifest_path"),
        features: features_of(field(p, "features")),
    }
}

/// The packages that `cargo metadata` printed, in its order; none when the
/// output is not JSON or has no array of packages.
pub fn package_records(stdout: &[u8]) -> (r: Option<Vec<PackageRecord>>)
    ensures
        match spec_json_parse(stdout@) {
            Some(j) => match json_field(j, "packages"@) {
                Some(JsonView::Array(ps)) => r matches Some(rs) && rs@.len() == ps.len() && forall|
                    i: int,
                | 0 <= i < ps.len() ==> #[trigger] record_of(rs@[i], ps[i]),
                _ => r is None,
            },
            None => r is None,
        },
{
    let metadata = match parse_json(stdout) {
        Some(m) => m,
        None => return None,
    };
    let packages = match field(&metadata, "packages") {
        Some(JsonValue::Array(ps)) => ps,
        _ => return None,
    };
    let ghost views = json_views(packages@);
    proof {
        lemma_json_views(packages@);
    }
    let mut records: Vec<PackageRecord> = Vec::new();
    let mut i: usize = 0;
    while i < packages.len()
        invariant
            views == packages@.map_values(|v: JsonValue| json_view(v)),
            i <= packages@.len(),
            records@.len() == i,
            forall|j: int| 0 <= j < i ==> #[trigger] record_of(records@[j], views[j]),
        decreases packages@.len() - i,
    {
        assert(views[i as int] == json_view(packages@[i as int]));
        records.push(record_from(&packages[i]));
        i += 1;
    }
    Some(records)
}

} // verus!
