use telekio::compiler::{
    AbiError, ArtifactMessage, abi_source, check_cfg, fingerprint, fingerprint_of, host_rustflags,
    is_clippy_driver, macros_manifest, macros_profile, proc_macro, wants_offline,
};
use telekio::edit::{ElementKind, OneError, TextRange, UseTreeRemoval, one, retain_outermost, use_tree_removal};
use telekio::guest::package::{
    PatchAction as GuestPatchAction, Role as GuestRole, build_script as guest_build_script,
    library_root as guest_library_root, manifest_file as guest_manifest_file,
    patch_current as guest_patch_current, prepare_patch as guest_prepare_patch,
    prepare_tests_manifest as guest_prepare_tests_manifest,
    write_patch_manifest as guest_write_patch_manifest,
};
use telekio::guest::{
    dependency, package_dependency, patch_manifest, prepare_tests_manifest, registry_dependency,
    sibling_candidates,
};
use telekio::invocation::{InvocationError, offline, offline_requested};
use telekio::manifest::{ArrayItem, Entry, Leaf, Manifest};
use telekio::package::PatchError;
use telekio::source::{
    Fetch, FetchAction, FetchEvent, FetchStage, PackageRecord, SourceError, destination_directory,
    lockfile_arguments, metadata_arguments, package_source, prepare_tokio, scratch_directory,
    scratch_manifest, select_registry_package, tokio_version, with_workspace,
};

fn entry(path: &[&str], value: Leaf) -> Entry {
    Entry { path: path.iter().map(|k| k.to_string()).collect(), value }
}

fn text(s: &str) -> Leaf {
    Leaf::Str(s.to_owned())
}

fn keys(path: &[&str]) -> Vec<String> {
    path.iter().map(|k| k.to_string()).collect()
}

fn tokio_manifest() -> Manifest {
    Manifest {
        entries: vec![
            entry(&["package", "name"], text("tokio")),
            entry(&["package", "categories"], Leaf::Array(vec![ArrayItem::Str("async".to_owned())])),
            entry(&["features", "rt"], Leaf::Array(vec![])),
            entry(&["dependencies", "bytes", "version"], text("1")),
            entry(&["dev-dependencies", "loom", "version"], text("0.7")),
        ],
    }
}

#[test]
fn guest_manifest_gains_abi_dependency_and_test_feature() {
    let mut manifest = tokio_manifest();
    patch_manifest(&mut manifest, registry_dependency(true, "0.1.0")).unwrap();
    assert_eq!(manifest.get_str(&keys(&["dependencies", "telekio", "version"])).map(String::as_str), Some("=0.1.0"));
    assert!(manifest.array_has_str(&keys(&["dependencies", "telekio", "features"]), "guest"));
    assert!(manifest.holds(&keys(&["features", "telekio-test"])));
    assert!(manifest.holds(&keys(&["dependencies", "bytes"])));
}

#[test]
fn guest_manifest_errors() {
    let mut no_dependencies = Manifest { entries: vec![entry(&["features", "rt"], Leaf::Array(vec![]))] };
    assert_eq!(patch_manifest(&mut no_dependencies, vec![]), Err(PatchError::NoDependencies));
    let mut no_features = Manifest { entries: vec![entry(&["dependencies", "a", "version"], text("1"))] };
    assert_eq!(patch_manifest(&mut no_features, vec![]), Err(PatchError::NoFeatures));
}

#[test]
fn test_manifest_patches_crates_io_tokio() {
    let mut manifest = tokio_manifest();
    prepare_tests_manifest(&mut manifest, package_dependency(None, false, "0.1.0")).unwrap();
    assert!(manifest.array_has_str(&keys(&["features", "telekio-test"]), "dep:telekio-host"));
    assert_eq!(manifest.get_bool(&keys(&["dependencies", "telekio-host", "optional"])), Some(true));
    assert_eq!(manifest.get_str(&keys(&["patch", "crates-io", "tokio", "path"])).map(String::as_str), Some("."));
    let mut broken = tokio_manifest();
    broken.entries.push(entry(&["patch"], text("nope")));
    assert_eq!(prepare_tests_manifest(&mut broken, vec![]), Err(PatchError::PatchesNotTable));
}

#[test]
fn dependency_at_a_path() {
    let manifest = Manifest { entries: dependency("/src/telekio-abi", true, "0.1.0") };
    assert_eq!(manifest.get_str(&keys(&["path"])).map(String::as_str), Some("/src/telekio-abi"));
    assert_eq!(manifest.get_str(&keys(&["version"])).map(String::as_str), Some("=0.1.0"));
    assert!(manifest.array_has_str(&keys(&["features"]), "guest"));
    let found = Manifest { entries: package_dependency(Some("/x"), false, "0.2.0") };
    assert!(found.holds(&keys(&["path"])));
    assert!(!found.holds(&keys(&["features"])));
    let (plain, versioned) = sibling_candidates("/work/crates", "telekio", "0.1.0");
    assert_eq!(plain, "/work/crates/telekio");
    assert_eq!(versioned, "/work/crates/telekio-0.1.0");
}

#[test]
fn guest_patch_written_is_current() {
    for role in [GuestRole::Host, GuestRole::Guest] {
        let mut manifest = tokio_manifest();
        guest_write_patch_manifest(&mut manifest, role, "0.1.0", "1.85").unwrap();
        assert_eq!(guest_patch_current(&manifest, role, "0.1.0", "1.85"), Ok(true));
        assert!(!manifest.holds(&keys(&["package", "categories"])));
        assert!(!manifest.holds(&keys(&["dev-dependencies"])));
        assert_eq!(
            manifest.holds(&keys(&["dependencies", "telekio-host"])),
            role == GuestRole::Host
        );
        let plan = guest_prepare_patch(Some(&manifest), "p/.telekio/tokio", role, "0.1.0", "1.85");
        assert!(matches!(plan, Ok(GuestPatchAction::Keep)));
    }
}

#[test]
fn guest_patch_texts() {
    assert!(guest_build_script(GuestRole::Host).contains("println!(\"cargo::rustc-cfg=telekio_host\");"));
    assert!(!guest_build_script(GuestRole::Guest).contains("rustc-cfg=telekio_host"));
    assert!(guest_library_root("").starts_with("// Generated by Telekio. Includes the transformed Tokio guest."));
    assert_eq!(
        guest_manifest_file("x"),
        "# Generated by Telekio. Defines the transformed Tokio guest.\n\nx"
    );
    let plan = guest_prepare_patch(None, "p/.telekio/tokio", GuestRole::Guest, "0.1.0", "1.85");
    assert!(matches!(plan, Ok(GuestPatchAction::Regenerate { ref source_cache }) if source_cache == "p/.telekio/source"));
}

#[test]
fn guest_test_manifest_is_a_workspace() {
    let mut manifest = tokio_manifest();
    guest_prepare_tests_manifest(&mut manifest, vec![]).unwrap();
    assert!(manifest.is_table(&keys(&["workspace"])));
    assert!(manifest.is_table(&keys(&["dependencies", "telekio-host"])));
}

#[test]
fn scratch_package_texts() {
    assert_eq!(tokio_version(), "1.53.1");
    assert_eq!(
        scratch_manifest("tokio", "1.53.1"),
        "[package]\nname = \"telekio-tokio-source\"\nversion = \"0.0.0\"\nedition = \"2024\"\n\n[workspace]\n\n[dependencies]\ntokio = \"=1.53.1\"\n"
    );
    assert_eq!(with_workspace("[package]\n"), Some("[package]\n\n[workspace]\n".to_owned()));
    assert_eq!(with_workspace("[package]\n[workspace]\n"), None);
    assert_eq!(scratch_directory("/out", "tokio", "1.0"), "/out/tokio-source-1.0");
    assert_eq!(destination_directory("/out/", "tokio", "1.0"), "/out/tokio-1.0");
    assert_eq!(lockfile_arguments("m", true), vec!["generate-lockfile", "--manifest-path", "m", "--offline"]);
    assert_eq!(
        metadata_arguments("m", false),
        vec!["metadata", "--format-version", "1", "--locked", "--manifest-path", "m"]
    );
}

fn record(name: &str, version: &str, source: Option<&str>, manifest: Option<&str>) -> PackageRecord {
    PackageRecord {
        name: Some(name.to_owned()),
        version: Some(version.to_owned()),
        source: source.map(str::to_owned),
        manifest_path: manifest.map(str::to_owned),
        features: None,
    }
}

#[test]
fn registry_package_selection() {
    let records = vec![
        record("tokio", "1.53.1", None, Some("/local/tokio/Cargo.toml")),
        record("bytes", "1.0.0", Some("registry+https://x"), Some("/r/bytes/Cargo.toml")),
        record("tokio", "1.53.1", Some("registry+https://github.com/rust-lang/crates.io-index"), Some("/r/tokio-1.53.1/Cargo.toml")),
    ];
    assert_eq!(select_registry_package(&records, "tokio", "1.53.1").unwrap(), 2);
    let (source, index) = package_source(&records, "tokio", "1.53.1").unwrap();
    assert_eq!(source, "/r/tokio-1.53.1");
    assert_eq!(index, 2);
    assert!(matches!(
        select_registry_package(&records, "tokio", "1.0.0"),
        Err(SourceError::NotOneRegistryPackage(0))
    ));
    let twice = vec![records[2].clone_record(), records[2].clone_record()];
    assert!(matches!(
        select_registry_package(&twice, "tokio", "1.53.1"),
        Err(SourceError::NotOneRegistryPackage(2))
    ));
    let unlocated = vec![record("tokio", "1.53.1", Some("registry+x"), None)];
    assert!(matches!(package_source(&unlocated, "tokio", "1.53.1"), Err(SourceError::NoManifestPath)));
}

trait CloneRecord {
    fn clone_record(&self) -> PackageRecord;
}

impl CloneRecord for PackageRecord {
    fn clone_record(&self) -> PackageRecord {
        PackageRecord {
            name: self.name.clone(),
            version: self.version.clone(),
            source: self.source.clone(),
            manifest_path: self.manifest_path.clone(),
            features: None,
        }
    }
}

#[test]
fn fetching_steps() {
    let fetch = Fetch {
        output: "/out".to_owned(),
        package: "tokio".to_owned(),
        version: "1.53.1".to_owned(),
        offline: true,
        emit: true,
    };
    let (stage, action) = prepare_tokio(&fetch, FetchStage::Start, FetchEvent::Begin).unwrap();
    assert_eq!(stage, FetchStage::Manifest);
    assert!(matches!(action, FetchAction::Prepare { ref directory, ref manifest }
        if directory == "/out/tokio-source-1.53.1/src" && manifest == "/out/tokio-source-1.53.1/Cargo.toml"));
    let (stage, action) = prepare_tokio(&fetch, stage, FetchEvent::Manifest(None)).unwrap();
    assert_eq!(stage, FetchStage::Lock);
    match action {
        FetchAction::Write { files, lock } => {
            assert_eq!(lock, "/out/tokio-source-1.53.1/Cargo.lock");
            assert_eq!(files.len(), 2);
            assert_eq!(files[1], ("/out/tokio-source-1.53.1/src/lib.rs".to_owned(), String::new()));
        }
        _ => panic!("expected files to write"),
    }
    let (stage, action) = prepare_tokio(&fetch, stage, FetchEvent::Lock(false)).unwrap();
    assert_eq!(stage, FetchStage::Lockfile);
    assert!(matches!(action, FetchAction::Cargo { ref arguments } if arguments[0] == "generate-lockfile" && arguments.last().unwrap() == "--offline"));
    assert!(matches!(
        prepare_tokio(&fetch, FetchStage::Lockfile, FetchEvent::Lockfile(false)),
        Err(SourceError::LockfileFailed)
    ));
    let (stage, _) = prepare_tokio(&fetch, FetchStage::Lockfile, FetchEvent::Lockfile(true)).unwrap();
    assert_eq!(stage, FetchStage::Metadata);
    let described = vec![record("tokio", "1.53.1", Some("registry+index"), Some("/reg/tokio-1.53.1/Cargo.toml"))];
    let (stage, action) = prepare_tokio(&fetch, stage, FetchEvent::Metadata(Ok(described))).unwrap();
    assert_eq!(stage, FetchStage::Copy { record: 0 });
    match action {
        FetchAction::Copy { source, destination, lines } => {
            assert_eq!(source, "/reg/tokio-1.53.1");
            assert_eq!(destination, "/out/tokio-1.53.1");
            assert_eq!(lines, vec![
                "cargo:rerun-if-changed=/reg/tokio-1.53.1/Cargo.toml",
                "cargo:rerun-if-changed=/out/tokio-source-1.53.1/Cargo.lock",
                "cargo:rerun-if-env-changed=CARGO_HOME",
            ]);
        }
        _ => panic!("expected a copy"),
    }
    let (stage, action) = prepare_tokio(&fetch, stage, FetchEvent::Copied).unwrap();
    assert_eq!(stage, FetchStage::Done { record: 0 });
    assert!(matches!(action, FetchAction::Finish { ref destination } if destination == "/out/tokio-1.53.1"));
    assert!(matches!(
        prepare_tokio(&fetch, FetchStage::Metadata, FetchEvent::Metadata(Err("no network".to_owned()))),
        Err(SourceError::MetadataFailed(ref m)) if m == "no network"
    ));
}

#[test]
fn existing_workspace_manifest_is_left_alone() {
    let fetch = Fetch {
        output: "o".to_owned(),
        package: "tokio".to_owned(),
        version: "1".to_owned(),
        offline: false,
        emit: false,
    };
    let (_, action) = prepare_tokio(&fetch, FetchStage::Manifest, FetchEvent::Manifest(Some("[workspace]\n".to_owned()))).unwrap();
    assert!(matches!(action, FetchAction::Write { ref files, .. } if files.is_empty()));
    let (_, action) = prepare_tokio(&fetch, FetchStage::Manifest, FetchEvent::Manifest(Some("[package]\n".to_owned()))).unwrap();
    assert!(matches!(action, FetchAction::Write { ref files, .. } if files[0].1 == "[package]\n\n[workspace]\n"));
    let described = vec![record("tokio", "1", Some("registry+index"), Some("/reg/tokio-1/Cargo.toml"))];
    let (_, action) = prepare_tokio(&fetch, FetchStage::Metadata, FetchEvent::Metadata(Ok(described))).unwrap();
    assert!(matches!(action, FetchAction::Copy { ref lines, .. } if lines.is_empty()));
}

#[test]
fn offline_flags_before_separator() {
    let args = |items: &[&str]| items.iter().map(|a| Some(a.to_string())).collect::<Vec<_>>();
    assert!(offline_requested(&args(&["cargo", "build", "--offline"])));
    assert!(offline_requested(&args(&["cargo", "--frozen", "test"])));
    assert!(!offline_requested(&args(&["cargo", "run", "--", "--offline"])));
    assert!(!offline_requested(&args(&["cargo", "build"])));
    assert!(!offline_requested(&[Some("cargo".to_owned()), None]));
    assert_eq!(offline(None), Err(InvocationError::ParentUnavailable));
    assert_eq!(offline(Some(&args(&["cargo", "--offline"]))), Ok(true));
}

#[test]
fn fingerprint_of_abc() {
    assert_eq!(fingerprint(b"abc").into_iter().collect::<String>(), "ba7816bf8f01cfea");
    assert_eq!(fingerprint_of(&[0, 1, 0xab, 0xff, 16, 2, 3, 4, 9]).into_iter().collect::<String>(), "0001abff10020304");
}

#[test]
fn check_cfg_lists_features() {
    assert_eq!(check_cfg(&["rt".to_owned(), "net".to_owned()]), "cfg(feature, values(\"rt\", \"net\"))");
    assert_eq!(check_cfg(&[]), "cfg(feature, values())");
}

#[test]
fn compiler_settings() {
    assert_eq!(host_rustflags("x86_64-unknown-linux-gnu"), "CARGO_TARGET_X86_64_UNKNOWN_LINUX_GNU_RUSTFLAGS");
    assert_eq!(macros_profile("debug"), "dev");
    assert_eq!(macros_profile("release"), "release");
    assert_eq!(macros_profile("bench"), "release");
    assert!(macros_manifest("/src/tokio-macros").ends_with("tokio-macros = { path = \"/src/tokio-macros\" }\n"));
    assert!(is_clippy_driver(b"/home/u/.rustup/bin/clippy-driver"));
    assert!(is_clippy_driver(b"clippy-driver.exe"));
    assert!(!is_clippy_driver(b"/usr/bin/rustc"));
    assert!(wants_offline(&[Some("--locked".to_owned()), Some("--frozen".to_owned())]));
    assert!(!wants_offline(&[Some("--locked".to_owned()), None]));
}

#[test]
fn proc_macro_library_is_found() {
    let messages = vec![
        ArtifactMessage {
            reason: Some("compiler-artifact".to_owned()),
            target_name: Some("other".to_owned()),
            filenames: vec![b"/t/libother.so".to_vec()],
        },
        ArtifactMessage {
            reason: Some("compiler-artifact".to_owned()),
            target_name: Some("tokio_macros".to_owned()),
            filenames: vec![b"/t/libtokio_macros.rlib".to_vec(), b"/t/libtokio_macros.so".to_vec()],
        },
    ];
    assert_eq!(proc_macro(&messages, "tokio_macros"), Some(b"/t/libtokio_macros.so".to_vec()));
    assert_eq!(proc_macro(&messages[..1], "tokio_macros"), None);
}

#[test]
fn abi_source_beside_manifest() {
    let records = vec![
        record("tokio", "1", None, Some("/a/Cargo.toml")),
        record("telekio", "0.1.0", None, Some("/reg/telekio-0.1.0/Cargo.toml")),
    ];
    assert_eq!(abi_source(&records), Ok("/reg/telekio-0.1.0/src/lib.rs".to_owned()));
    assert_eq!(abi_source(&records[..1]), Err(AbiError::PackageUnavailable));
}

#[test]
fn exactly_one() {
    assert_eq!(one(vec![5]), Ok(5));
    assert_eq!(one::<u8>(vec![]), Err(OneError::Missing));
    assert_eq!(one(vec![1, 2]), Err(OneError::MoreThanOne));
}

#[test]
fn outermost_replacements_stay() {
    let mut replacements = Vec::new();
    retain_outermost(&mut replacements, TextRange { start: 10, end: 20 }, "a");
    retain_outermost(&mut replacements, TextRange { start: 12, end: 15 }, "inner");
    assert_eq!(replacements.len(), 1);
    retain_outermost(&mut replacements, TextRange { start: 30, end: 40 }, "b");
    retain_outermost(&mut replacements, TextRange { start: 0, end: 50 }, "outer");
    assert_eq!(replacements, vec![(TextRange { start: 0, end: 50 }, "outer")]);
}

#[test]
fn use_tree_takes_its_comma() {
    let (space, comma, other) = (ElementKind::Whitespace, ElementKind::Comma, ElementKind::Other);
    assert_eq!(use_tree_removal(&[space, comma, other], &[]), UseTreeRemoval::WithFollowing(2));
    assert_eq!(use_tree_removal(&[other], &[space, comma]), UseTreeRemoval::WithPreceding(2));
    assert_eq!(use_tree_removal(&[], &[comma]), UseTreeRemoval::WithPreceding(1));
    assert_eq!(use_tree_removal(&[space], &[other, comma]), UseTreeRemoval::Alone);
}

#[test]
fn package_source_is_the_manifest_directory() {
    let relative = vec![record("tokio", "1.53.1", Some("registry+x"), Some("vendor/tokio/Cargo.toml"))];
    assert_eq!(package_source(&relative, "tokio", "1.53.1").unwrap(), ("vendor/tokio".to_owned(), 0));
    let empty = vec![record("tokio", "1.53.1", Some("registry+x"), Some(""))];
    assert!(matches!(package_source(&empty, "tokio", "1.53.1"), Err(SourceError::ManifestHasNoParent)));
}

#[test]
fn abi_source_of_bare_and_empty_manifest_paths() {
    let bare = vec![record("telekio", "0.1.0", None, Some("Cargo.toml"))];
    assert_eq!(abi_source(&bare), Ok("src/lib.rs".to_owned()));
    let empty = vec![record("telekio", "0.1.0", None, Some(""))];
    assert_eq!(abi_source(&empty), Err(AbiError::ManifestHasNoParent));
    let nested = vec![record("telekio", "0.1.0", None, Some("/r/x/telekio/Cargo.toml"))];
    assert_eq!(abi_source(&nested), Ok("/r/x/telekio/src/lib.rs".to_owned()));
}
