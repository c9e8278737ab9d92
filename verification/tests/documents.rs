use telekio::compiler::{AbiError, abi_manifest, artifact_messages};
use telekio::manifest::document::{manifest_text, read_manifest};
use telekio::manifest::{ArrayItem, Leaf, Manifest};
use telekio::package::{
    Feature, PatchError, Role, build_script, library_root, patch_current_text, read_patch_files,
    write_patch_text,
};
use telekio::source::package_records;

const TOKIO: &str = r#"
[package]
name = "tokio"
version = "1.53.1"
authors = ["Tokio Contributors"]
rust-version = "1.70"

[package.metadata.docs.rs]
all-features = true

[features]
default = []
full = ["rt"]
rt = []

[dependencies]
pin-project-lite = "0.2.11"

[dev-dependencies]
tokio-test = "0.4.0"

[target.'cfg(unix)'.dependencies]
libc = { version = "0.2", optional = true }

[[bench]]
name = "spawn"
"#;

fn features() -> Vec<Feature> {
    vec![
        Feature { name: "default".to_owned(), enables: vec![] },
        Feature { name: "full".to_owned(), enables: vec!["rt".to_owned()] },
        Feature { name: "rt".to_owned(), enables: vec![] },
    ]
}

fn key(path: &[&str]) -> Vec<String> {
    path.iter().map(|k| k.to_string()).collect()
}

fn string_at(m: &Manifest, path: &[&str]) -> Option<String> {
    m.get_str(&key(path)).cloned()
}

#[test]
fn manifest_reads_nested_tables() {
    let m = read_manifest(TOKIO).unwrap();
    assert_eq!(string_at(&m, &["package", "version"]), Some("1.53.1".to_owned()));
    assert_eq!(string_at(&m, &["target", "cfg(unix)", "dependencies", "libc", "version"]), Some("0.2".to_owned()));
    assert_eq!(m.get_bool(&key(&["package", "metadata", "docs", "rs", "all-features"])), Some(true));
    assert!(m.array_has_str(&key(&["features", "full"]), "rt"));
    assert!(m.is_table(&key(&["features"])));
    assert!(read_manifest("[package\nname = 1").is_none());
}

#[test]
fn manifest_text_reads_back() {
    let m = read_manifest("a = 1\n[b]\nc = \"d\"\ne = [1, \"f\"]\n[g]\n").unwrap();
    match m.value(&key(&["a"])) {
        Some(Leaf::Raw(text)) => assert_eq!(text, "1"),
        _ => panic!("expected the integer's text"),
    }
    match m.value(&key(&["b", "e"])) {
        Some(Leaf::Array(items)) => {
            assert!(matches!(&items[0], ArrayItem::Other(t) if t == "1"));
            assert!(matches!(&items[1], ArrayItem::Str(t) if t == "f"));
        }
        _ => panic!("expected an array"),
    }
    let text = manifest_text(m).unwrap();
    let again = read_manifest(&text).unwrap();
    assert_eq!(string_at(&again, &["b", "c"]), Some("d".to_owned()));
    assert!(again.is_table(&key(&["g"])));
    assert!(again.holds(&key(&["a"])));
}

#[test]
fn written_patch_text_is_current() {
    for (source, dependency) in [(Role::Host, Role::Host), (Role::Guest, Role::Guest), (Role::Guest, Role::Host)] {
        let text = write_patch_text(TOKIO, features(), source, dependency, "0.1.0", "1.85").unwrap();
        assert!(text.starts_with("# Generated by Telekio. Defines Tokio for this target.\n\n"));
        let build = build_script(source);
        let root = library_root("", source);
        assert_eq!(
            patch_current_text(&text, &build, &root, source, dependency, "0.1.0", "1.85"),
            Ok(true)
        );
        assert_eq!(
            patch_current_text(&text, &build, &root, source, dependency, "0.2.0", "1.85"),
            Ok(false)
        );
        let files = read_patch_files(&text, build, root).unwrap();
        assert!(files.manifest.holds(&key(&["build-dependencies", "telekio-build", "version"])));
    }
}

#[test]
fn unreadable_manifests() {
    assert_eq!(
        patch_current_text("[dependencies", "", "", Role::Host, Role::Host, "0.1.0", "1.85"),
        Err(PatchError::ManifestUnreadable)
    );
    assert_eq!(
        write_patch_text("= nothing", features(), Role::Host, Role::Host, "0.1.0", "1.85"),
        Err(PatchError::ManifestUnreadable)
    );
    assert_eq!(
        patch_current_text("[package]\n", "", "", Role::Host, Role::Host, "0.1.0", "1.85"),
        Err(PatchError::NoDependencies)
    );
    assert_eq!(
        write_patch_text("[dependencies]\n", features(), Role::Host, Role::Host, "0.1.0", "1.85"),
        Err(PatchError::NoPackage)
    );
    assert!(matches!(
        read_patch_files("[x", String::new(), String::new()),
        Err(PatchError::ManifestUnreadable)
    ));
}

#[test]
fn package_records_from_metadata() {
    let stdout = br#"{"packages":[{"name":"tokio","version":"1.53.1","source":"registry+https://x","manifest_path":"/r/tokio/Cargo.toml","features":{"full":["rt"],"rt":[]}},{"name":"odd","version":1,"features":{"x":[1]}}],"version":1}"#;
    let records = package_records(stdout).unwrap();
    assert_eq!(records.len(), 2);
    assert_eq!(records[0].name.as_deref(), Some("tokio"));
    assert_eq!(records[0].source.as_deref(), Some("registry+https://x"));
    assert_eq!(records[0].manifest_path.as_deref(), Some("/r/tokio/Cargo.toml"));
    let features = records[0].features.as_ref().unwrap();
    assert_eq!(features.len(), 2);
    assert_eq!(features[0].name, "full");
    assert_eq!(features[0].enables, vec!["rt".to_owned()]);
    assert_eq!(records[1].version, None);
    assert_eq!(records[1].source, None);
    assert!(records[1].features.is_none());
    assert!(package_records(b"{\"version\":1}").is_none());
    assert!(package_records(b"not json").is_none());
}

#[test]
fn artifact_messages_from_lines() {
    let output = b"{\"reason\":\"compiler-artifact\",\"target\":{\"name\":\"tokio_macros\"},\"filenames\":[\"/t/libm.so\",7,\"/t/m.rlib\"]}\nnoise\n\n{\"reason\":\"build-finished\"}";
    let messages = artifact_messages(output);
    assert_eq!(messages.len(), 2);
    assert_eq!(messages[0].reason.as_deref(), Some("compiler-artifact"));
    assert_eq!(messages[0].target_name.as_deref(), Some("tokio_macros"));
    assert_eq!(messages[0].filenames, vec![b"/t/libm.so".to_vec(), b"/t/m.rlib".to_vec()]);
    assert_eq!(messages[1].reason.as_deref(), Some("build-finished"));
    assert_eq!(messages[1].target_name, None);
    assert!(messages[1].filenames.is_empty());
}

#[test]
fn abi_manifest_keeps_the_dependency() {
    let guest = read_manifest("[package]\nname = \"tokio\"\n[dependencies.telekio]\nversion = \"=0.1.0\"\nfeatures = [\"guest\"]\n[dependencies.bytes]\nversion = \"1\"\n").unwrap();
    let abi = abi_manifest(guest).unwrap();
    assert_eq!(string_at(&abi, &["package", "name"]), Some("telekio-compiler-abi".to_owned()));
    assert_eq!(string_at(&abi, &["package", "edition"]), Some("2024".to_owned()));
    assert_eq!(string_at(&abi, &["dependencies", "telekio", "version"]), Some("=0.1.0".to_owned()));
    assert!(!abi.holds(&key(&["dependencies", "bytes"])));
    assert!(abi.is_table(&key(&["workspace"])));
    let none = read_manifest("[dependencies]\nbytes = \"1\"\n").unwrap();
    assert!(matches!(abi_manifest(none), Err(AbiError::NoTelekioDependency)));
}
