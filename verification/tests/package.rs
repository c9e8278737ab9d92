use telekio::manifest::{ArrayItem, Entry, Leaf, Manifest};
use telekio::package::{
    Feature, PatchAction, PatchError, PatchFiles, Role, build_script, forward_features,
    library_root, manifest_file, patch_current, patch_plan, prepare_mixed_guest_patch,
    prepare_patch, prune_targets, registry_dependency, write_patch_manifest,
};

fn entry(path: &[&str], value: Leaf) -> Entry {
    Entry { path: path.iter().map(|k| k.to_string()).collect(), value }
}

fn text(s: &str) -> Leaf {
    Leaf::Str(s.to_owned())
}

fn strings(items: &[&str]) -> Leaf {
    Leaf::Array(items.iter().map(|s| ArrayItem::Str(s.to_string())).collect())
}

fn tokio_manifest() -> Manifest {
    Manifest {
        entries: vec![
            entry(&["package", "name"], text("tokio")),
            entry(&["package", "version"], text("1.53.1")),
            entry(&["package", "authors"], strings(&["Tokio Contributors"])),
            entry(&["package", "readme"], text("README.md")),
            entry(&["package", "metadata", "docs", "rs", "all-features"], Leaf::Bool(true)),
            entry(&["features", "default"], strings(&[])),
            entry(&["features", "rt"], strings(&[])),
            entry(&["dependencies", "pin-project-lite", "version"], text("0.2.11")),
            entry(&["dev-dependencies", "tokio-test", "version"], text("0.4.0")),
            entry(&["target", "cfg(unix)", "dependencies", "libc", "version"], text("0.2")),
            entry(&["target", "cfg(unix)", "dev-dependencies", "nix", "version"], text("0.29")),
            entry(&["target", "cfg(windows)", "dev-dependencies", "windows-sys", "version"], text("0.59")),
            entry(&["bench"], Leaf::Array(vec![ArrayItem::Other("{ name = \"spawn\" }".to_owned())])),
            entry(&["test"], Leaf::Array(vec![ArrayItem::Other("{ name = \"io\" }".to_owned())])),
        ],
    }
}

fn resolved_features() -> Vec<Feature> {
    vec![
        Feature { name: "default".to_owned(), enables: vec![] },
        Feature { name: "full".to_owned(), enables: vec!["rt".to_owned()] },
        Feature { name: "rt".to_owned(), enables: vec![] },
    ]
}

fn has(manifest: &Manifest, path: &[&str]) -> bool {
    let path: Vec<String> = path.iter().map(|k| k.to_string()).collect();
    manifest.holds(&path)
}

fn string_at(manifest: &Manifest, path: &[&str]) -> Option<String> {
    let path: Vec<String> = path.iter().map(|k| k.to_string()).collect();
    manifest.get_str(&path).cloned()
}

fn array_has(manifest: &Manifest, path: &[&str], item: &str) -> bool {
    let path: Vec<String> = path.iter().map(|k| k.to_string()).collect();
    manifest.array_has_str(&path, item)
}

#[test]
fn written_host_patch_is_current() {
    let mut manifest = tokio_manifest();
    write_patch_manifest(&mut manifest, resolved_features(), Role::Host, Role::Host, "0.1.0", "1.85")
        .unwrap();
    let build = build_script(Role::Host);
    let source = library_root("#![allow(unused)]\n", Role::Host);
    assert_eq!(
        patch_current(&manifest, &build, &source, Role::Host, Role::Host, "0.1.0", "1.85"),
        Ok(true)
    );
    assert_eq!(
        patch_current(&manifest, &build, &source, Role::Host, Role::Host, "0.2.0", "1.85"),
        Ok(false)
    );
}

#[test]
fn written_guest_patch_is_current() {
    let mut manifest = tokio_manifest();
    write_patch_manifest(&mut manifest, resolved_features(), Role::Guest, Role::Guest, "0.1.0", "1.85")
        .unwrap();
    let build = build_script(Role::Guest);
    let source = library_root("", Role::Guest);
    assert_eq!(
        patch_current(&manifest, &build, &source, Role::Guest, Role::Guest, "0.1.0", "1.85"),
        Ok(true)
    );
    assert_eq!(
        patch_current(&manifest, &build, &source, Role::Host, Role::Host, "0.1.0", "1.85"),
        Ok(false)
    );
}

#[test]
fn written_mixed_patch_is_current() {
    let mut manifest = tokio_manifest();
    write_patch_manifest(&mut manifest, resolved_features(), Role::Guest, Role::Host, "0.1.0", "1.85")
        .unwrap();
    let build = build_script(Role::Guest);
    let source = library_root("", Role::Guest);
    assert_eq!(
        patch_current(&manifest, &build, &source, Role::Guest, Role::Host, "0.1.0", "1.85"),
        Ok(true)
    );
}

#[test]
fn patch_manifest_contents() {
    let mut manifest = tokio_manifest();
    write_patch_manifest(&mut manifest, resolved_features(), Role::Host, Role::Host, "0.1.0", "1.85")
        .unwrap();
    assert_eq!(string_at(&manifest, &["package", "build"]).as_deref(), Some("build.rs"));
    assert_eq!(string_at(&manifest, &["package", "rust-version"]).as_deref(), Some("1.85"));
    assert_eq!(string_at(&manifest, &["package", "name"]).as_deref(), Some("tokio"));
    assert!(!has(&manifest, &["package", "authors"]));
    assert!(!has(&manifest, &["package", "readme"]));
    assert!(!has(&manifest, &["package", "metadata"]));
    assert!(!has(&manifest, &["dev-dependencies"]));
    assert!(!has(&manifest, &["bench"]));
    assert!(!has(&manifest, &["test"]));
    assert!(has(&manifest, &["target", "cfg(unix)", "dependencies", "libc"]));
    assert!(!has(&manifest, &["target", "cfg(unix)", "dev-dependencies"]));
    assert!(!has(&manifest, &["target", "cfg(windows)"]));
    assert!(array_has(&manifest, &["features", "full"], "rt"));
    assert!(array_has(&manifest, &["features", "full"], "telekio-host/full"));
    assert!(!array_has(&manifest, &["features", "default"], "telekio-host/default"));
    assert_eq!(
        string_at(&manifest, &["dependencies", "telekio-abi", "version"]).as_deref(),
        Some("=0.1.0")
    );
    assert!(array_has(&manifest, &["dependencies", "telekio-abi", "features"], "host"));
    assert_eq!(
        string_at(
            &manifest,
            &["target", "cfg(all(any(unix, windows), not(loom)))", "dependencies", "telekio-host", "version"]
        )
        .as_deref(),
        Some("=0.1.0")
    );
    assert_eq!(
        string_at(&manifest, &["build-dependencies", "telekio-build", "version"]).as_deref(),
        Some("=0.1.0")
    );
}

#[test]
fn patch_needs_package_table() {
    let mut manifest = Manifest { entries: vec![entry(&["dependencies", "a", "version"], text("1"))] };
    assert_eq!(
        write_patch_manifest(&mut manifest, resolved_features(), Role::Host, Role::Host, "0.1.0", "1.85"),
        Err(PatchError::NoPackage)
    );
}

#[test]
fn patch_needs_dependencies_table() {
    let mut manifest = Manifest { entries: vec![entry(&["package", "name"], text("tokio"))] };
    assert_eq!(
        write_patch_manifest(&mut manifest, resolved_features(), Role::Guest, Role::Guest, "0.1.0", "1.85"),
        Err(PatchError::NoDependencies)
    );
}

#[test]
fn forwarding_needs_array_features() {
    let mut manifest = Manifest { entries: vec![entry(&["features", "rt"], text("oops"))] };
    assert_eq!(forward_features(&mut manifest), Err(PatchError::FeatureNotArray));
    assert_eq!(manifest.entries.len(), 1);
}

#[test]
fn host_targets_must_be_a_table() {
    let mut manifest = tokio_manifest();
    manifest.entries.retain(|e| e.path[0] != "target");
    manifest.entries.push(entry(&["target"], text("not a table")));
    assert_eq!(
        write_patch_manifest(&mut manifest, resolved_features(), Role::Host, Role::Host, "0.1.0", "1.85"),
        Err(PatchError::TargetsNotTable)
    );
}

#[test]
fn pruning_keeps_targets_with_dependencies() {
    let mut manifest = tokio_manifest();
    prune_targets(&mut manifest);
    assert!(has(&manifest, &["target", "cfg(unix)", "dependencies"]));
    assert!(!has(&manifest, &["target", "cfg(windows)"]));
}

#[test]
fn registry_dependency_pins_version() {
    let dependency = registry_dependency(Some(Role::Guest), "0.3.0");
    let manifest = Manifest { entries: dependency };
    assert_eq!(string_at(&manifest, &["version"]).as_deref(), Some("=0.3.0"));
    assert!(array_has(&manifest, &["features"], "guest"));
    let plain = Manifest { entries: registry_dependency(None, "0.3.0") };
    assert!(!has(&plain, &["features"]));
}

#[test]
fn build_script_turns_host_on_only_for_host() {
    assert!(build_script(Role::Host).contains("rustc-cfg=telekio_host"));
    assert!(!build_script(Role::Guest).contains("rustc-cfg=telekio_host"));
    assert!(build_script(Role::Guest).starts_with("// Generated by Telekio. Prepares Tokio for this target."));
}

#[test]
fn library_root_uses_host_only_for_host() {
    let host = library_root("//! pre\n", Role::Host);
    assert!(host.starts_with("//! pre\n// Generated by Telekio. Exposes Tokio for this target.\n\n"));
    assert!(host.contains("#[doc(inline)]\npub use telekio_host::*;"));
    let guest = library_root("", Role::Guest);
    assert!(guest.ends_with("include!(env!(\"TELEKIO_TOKIO_SOURCE\"));\n"));
    assert!(!guest.contains("telekio_host"));
}

#[test]
fn manifest_file_has_header() {
    assert_eq!(
        manifest_file("[package]\n"),
        "# Generated by Telekio. Defines Tokio for this target.\n\n[package]\n"
    );
}

fn current_files(source_role: Role, dependency_role: Role) -> PatchFiles {
    let mut manifest = tokio_manifest();
    write_patch_manifest(&mut manifest, resolved_features(), source_role, dependency_role, "0.1.0", "1.85")
        .unwrap();
    PatchFiles {
        manifest,
        build: build_script(source_role),
        source: library_root("", source_role),
    }
}

#[test]
fn current_patch_is_kept() {
    let files = current_files(Role::Host, Role::Host);
    let plan = prepare_patch(Some(&files), "project/.telekio/tokio", Role::Host, "0.1.0", "1.85");
    assert!(matches!(plan, Ok(PatchAction::Keep)));
}

#[test]
fn missing_patch_is_regenerated_beside_it() {
    let plan = prepare_patch(None, "project/.telekio/tokio", Role::Guest, "0.1.0", "1.85");
    match plan {
        Ok(PatchAction::Regenerate { source_cache, source_role, dependency_role }) => {
            assert_eq!(source_cache, "project/.telekio/source");
            assert_eq!(source_role, Role::Guest);
            assert_eq!(dependency_role, Role::Guest);
        }
        other => panic!("unexpected plan {other:?}"),
    }
}

#[test]
fn stale_mixed_patch_is_regenerated() {
    let files = current_files(Role::Guest, Role::Guest);
    let plan = prepare_mixed_guest_patch(Some(&files), "patches/tokio", "0.1.0", "1.85");
    match plan {
        Ok(PatchAction::Regenerate { source_cache, source_role, dependency_role }) => {
            assert_eq!(source_cache, "patches/source");
            assert_eq!(source_role, Role::Guest);
            assert_eq!(dependency_role, Role::Host);
        }
        other => panic!("unexpected plan {other:?}"),
    }
}

#[test]
fn patch_without_dependencies_is_an_error() {
    let files = PatchFiles {
        manifest: Manifest { entries: vec![entry(&["package", "name"], text("tokio"))] },
        build: String::new(),
        source: String::new(),
    };
    let plan = prepare_patch(Some(&files), "a/b", Role::Host, "0.1.0", "1.85");
    assert!(matches!(plan, Err(PatchError::NoDependencies)));
}

#[test]
fn patch_at_root_has_no_parent() {
    let plan = patch_plan(None, None, Role::Host, Role::Host, "0.1.0", "1.85");
    assert!(matches!(plan, Err(PatchError::NoParent)));
    let plan = prepare_patch(None, "/", Role::Host, "0.1.0", "1.85");
    assert!(matches!(plan, Err(PatchError::NoParent)));
}

#[test]
fn stale_patch_is_regenerated_beside_its_directory() {
    let files = current_files(Role::Guest, Role::Guest);
    let plan = prepare_patch(Some(&files), "w/patches/tokio", Role::Host, "0.1.0", "1.85");
    match plan {
        Ok(PatchAction::Regenerate { source_cache, source_role, dependency_role }) => {
            assert_eq!(source_cache, "w/patches/source");
            assert_eq!(source_role, Role::Host);
            assert_eq!(dependency_role, Role::Host);
        }
        other => panic!("unexpected plan {other:?}"),
    }
}
