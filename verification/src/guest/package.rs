//! The persistent patch of a project that builds the transformed Tokio guest
//! itself: whether it is current, and its manifest and files.
use vstd::prelude::*;

use crate::guest::{registry_dependency, version_children};
use crate::manifest::{
    ArrayItem, ItemView, Leaf, LeafView, Manifest, entry_views, holds, is_table, replaced, str_at,
    without_key,
};
use crate::package::{
    PatchError, check_no_path_dependencies, check_no_target_dev_dependencies, no_path_dependencies,
    no_target_dev_dependencies, path_parent, path1, path2, path3, prune_targets, pruned_targets,
    is_parent_text, value_here,

    without_extra_targets, without_package_metadata,
};
use crate::text::{plain_child_of, portable, join_name, join_str, joined_name, owned, str_eq};

pub mod fresh;

verus! {

#[derive(Clone, Copy, Debug, PartialEq, Eq, Structural)]
pub enum Role {
    Host,
    Guest,
}

/// The generated manifest belongs to the current Telekio build with this role.
pub open spec fn is_current(
    m: Seq<(Seq<Seq<char>>, LeafView)>,
    role: Role,
    version: Seq<char>,
    rust_version: Seq<char>,
) -> bool {
    &&& str_at(m, seq!["build-dependencies"@, "telekio-build"@, "version"@]) == Some("="@ + version)
    &&& str_at(m, seq!["package"@, "rust-version"@]) == Some(rust_version)
    &&& is_table(m, seq!["features"@])
    &&& holds(m, seq!["features"@, "telekio-test"@])
    &&& holds(m, seq!["dependencies"@, "telekio-host"@]) == (role == Role::Host)
    &&& no_path_dependencies(m, "dependencies"@)
    &&& (is_table(m, seq!["build-dependencies"@]) ==> no_path_dependencies(
        m,
        "build-dependencies"@,
    ))
    &&& !holds(m, seq!["bench"@]) && !holds(m, seq!["bin"@]) && !holds(
        m,
        seq!["dev-dependencies"@],
    ) && !holds(m, seq!["example"@]) && !holds(m, seq!["test"@])
    &&& is_table(m, seq!["package"@]) && !holds(m, seq!["package"@, "metadata"@])
    &&& no_target_dev_dependencies(m)
}

/// Whether the generated manifest belongs to this build of Telekio with this role.
pub fn patch_current(manifest: &Manifest, role: Role, version: &str, rust_version: &str) -> (r:
    Result<bool, PatchError>)
    ensures
        r is Err <==> !is_table(manifest@, seq!["dependencies"@]),
        r matches Err(e) ==> e == PatchError::NoDependencies,
        r matches Ok(current) ==> current == is_current(manifest@, role, version@, rust_version@),
{
    if !manifest.is_table(path1("dependencies").as_slice()) {
        return Err(PatchError::NoDependencies);
    }
    let expected_version = join_str("=", version);
    let version_ok = match manifest.get_str(
        path3("build-dependencies", "telekio-build", "version").as_slice(),
    ) {
        Some(found) => str_eq(found.as_str(), expected_version.as_str()),
        None => false,
    };
    let rust_version_ok = match manifest.get_str(path2("package", "rust-version").as_slice()) {
        Some(found) => str_eq(found.as_str(), rust_version),
        None => false,
    };
    let features_ok = manifest.is_table(path1("features").as_slice()) && manifest.holds(
        path2("features", "telekio-test").as_slice(),
    );
    let host_ok = manifest.holds(path2("dependencies", "telekio-host").as_slice()) == (role
        == Role::Host);
    let paths_ok = check_no_path_dependencies(manifest, "dependencies") && (!manifest.is_table(
        path1("build-dependencies").as_slice(),
    ) || check_no_path_dependencies(manifest, "build-dependencies"));
    let no_targets = !manifest.holds(path1("bench").as_slice()) && !manifest.holds(
        path1("bin").as_slice(),
    ) && !manifest.holds(path1("dev-dependencies").as_slice()) && !manifest.holds(
        path1("example").as_slice(),
    ) && !manifest.holds(path1("test").as_slice());
    let package_ok = manifest.is_table(path1("package").as_slice()) && !manifest.holds(
        path2("package", "metadata").as_slice(),
    );
    let targets_ok = check_no_target_dev_dependencies(manifest);
    Ok(
        version_ok && rust_version_ok && features_ok && host_ok && paths_ok && no_targets
            && package_ok && targets_ok,
    )
}

/// The manifest of the patch, made from Tokio's manifest.
pub open spec fn patched_manifest(
    m: Seq<(Seq<Seq<char>>, LeafView)>,
    role: Role,
    version: Seq<char>,
    rust_version: Seq<char>,
) -> Result<Seq<(Seq<Seq<char>>, LeafView)>, PatchError> {
    if !is_table(m, seq!["package"@]) {
        Err(PatchError::NoPackage)
    } else {
        let m1 = replaced(
            replaced(m, seq!["package"@, "build"@], seq![(seq![], LeafView::Str("build.rs"@))]),
            seq!["package"@, "rust-version"@],
            seq![(seq![], LeafView::Str(rust_version))],
        );
        let m2 = pruned_targets(without_extra_targets(without_package_metadata(m1)));
        if !is_table(m2, seq!["features"@]) {
            Err(PatchError::NoFeatures)
        } else {
            let m3 = replaced(
                m2,
                seq!["features"@, "telekio-test"@],
                seq![(seq![], LeafView::Array(seq![]))],
            );
            if !is_table(m3, seq!["dependencies"@]) {
                Err(PatchError::NoDependencies)
            } else {
                let m4 = replaced(
                    m3,
                    seq!["dependencies"@, "telekio"@],
                    version_children(true, version),
                );
                let m5 = if role == Role::Host {
                    replaced(
                        m4,
                        seq!["dependencies"@, "telekio-host"@],
                        version_children(false, version),
                    )
                } else {
                    without_key(m4, seq!["dependencies"@], "telekio-host"@)
                };
                Ok(
                    replaced(
                        m5,
                        seq!["build-dependencies"@],
                        seq![(seq!["telekio-build"@, "version"@], LeafView::Str("="@ + version))],
                    ),
                )
            }
        }
    }
}

/// Turns Tokio's manifest into the patch's manifest; `version` and
/// `rust_version` are those of the Telekio build crate.
pub fn write_patch_manifest(
    manifest: &mut Manifest,
    role: Role,
    version: &str,
    rust_version: &str,
) -> (r: Result<(), PatchError>)
    ensures
        match patched_manifest(old(manifest)@, role, version@, rust_version@) {
            Ok(m) => r is Ok && final(manifest)@ == m,
            Err(e) => r == Err::<(), PatchError>(e),
        },
{
    if !manifest.is_table(path1("package").as_slice()) {
        return Err(PatchError::NoPackage);
    }
    manifest.replace(path2("package", "build").as_slice(), value_here(Leaf::Str(owned("build.rs"))));
    manifest.replace(
        path2("package", "rust-version").as_slice(),
        value_here(Leaf::Str(owned(rust_version))),
    );
    let package = path1("package");
    manifest.remove_key(package.as_slice(), "authors");
    manifest.remove_key(package.as_slice(), "categories");
    manifest.remove_key(package.as_slice(), "homepage");
    manifest.remove_key(package.as_slice(), "keywords");
    manifest.remove_key(package.as_slice(), "metadata");
    manifest.remove_key(package.as_slice(), "readme");
    manifest.remove_key(package.as_slice(), "repository");
    manifest.remove(path1("dev-dependencies").as_slice());
    manifest.remove(path1("bench").as_slice());
    manifest.remove(path1("bin").as_slice());
    manifest.remove(path1("example").as_slice());
    manifest.remove(path1("test").as_slice());
    prune_targets(manifest);
    if !manifest.is_table(path1("features").as_slice()) {
        return Err(PatchError::NoFeatures);
    }
    let empty: Vec<ArrayItem> = Vec::new();
    assert(crate::manifest::item_views(empty@) =~= Seq::<ItemView>::empty());
    manifest.replace(path2("features", "telekio-test").as_slice(), value_here(Leaf::Array(empty)));
    if !manifest.is_table(path1("dependencies").as_slice()) {
        return Err(PatchError::NoDependencies);
    }
    manifest.replace(
        path2("dependencies", "telekio").as_slice(),
        registry_dependency(true, version),
    );
    if role == Role::Host {
        manifest.replace(
            path2("dependencies", "telekio-host").as_slice(),
            registry_dependency(false, version),
        );
    } else {
        manifest.remove_key(path1("dependencies").as_slice(), "telekio-host");
    }
    let build_dependencies = vec![
        crate::package::entry(path2("telekio-build", "version"), Leaf::Str(join_str("=", version))),
    ];
    assert(entry_views(build_dependencies@) =~= seq![
        (seq!["telekio-build"@, "version"@], LeafView::Str("="@ + version@)),
    ]);
    manifest.replace(path1("build-dependencies").as_slice(), build_dependencies);
    Ok(())
}

/// The patch's build script: a host build also turns the host runtime on.
pub open spec fn build_script_text(role: Role) -> Seq<char> {
    "// Generated by Telekio. Builds the transformed Tokio guest.\n\nfn main() {\n    let source = telekio_build::prepare_guest().unwrap();\n    println!(\"cargo::rustc-env=TELEKIO_TOKIO_SOURCE={}\", source.join(\"src/lib.rs\").display());\n    println!(\"cargo::rustc-check-cfg=cfg(telekio_host)\");\n"@
        + (if role == Role::Host {
        "    println!(\"cargo::rustc-cfg=telekio_host\");\n"@
    } else {
        ""@
    }) + "}\n"@
}

pub fn build_script(role: Role) -> (r: String)
    ensures
        r@ == build_script_text(role),
{
    let head = owned(
        "// Generated by Telekio. Builds the transformed Tokio guest.\n\nfn main() {\n    let source = telekio_build::prepare_guest().unwrap();\n    println!(\"cargo::rustc-env=TELEKIO_TOKIO_SOURCE={}\", source.join(\"src/lib.rs\").display());\n    println!(\"cargo::rustc-check-cfg=cfg(telekio_host)\");\n",
    );
    let host = if role == Role::Host {
        "    println!(\"cargo::rustc-cfg=telekio_host\");\n"
    } else {
        ""
    };
    let with_host = join_str(head.as_str(), host);
    join_str(with_host.as_str(), "}\n")
}

/// The patch's library root, after Tokio's own crate preamble.
pub fn library_root(preamble: &str) -> (r: String)
    ensures
        r@ == preamble@
            + "// Generated by Telekio. Includes the transformed Tokio guest.\n\ninclude!(env!(\"TELEKIO_TOKIO_SOURCE\"));\n"@,
{
    join_str(
        preamble,
        "// Generated by Telekio. Includes the transformed Tokio guest.\n\ninclude!(env!(\"TELEKIO_TOKIO_SOURCE\"));\n",
    )
}

/// The patch's manifest file: a header, then the TOML document.
pub fn manifest_file(document: &str) -> (r: String)
    ensures
        r@ == "# Generated by Telekio. Defines the transformed Tokio guest.\n\n"@ + document@,
{
    join_str("# Generated by Telekio. Defines the transformed Tokio guest.\n\n", document)
}

/// What preparing a patch comes to.
#[derive(Debug)]
pub enum PatchAction {
    Keep,
    /// Regenerate from Tokio's source, fetched into this directory.
    Regenerate { source_cache: String },
}

/// Keeps the patch when its manifest (none when a file of the patch is
/// missing) is current, else says where beside the patch's directory to fetch
/// Tokio's source to.
pub fn prepare_patch(
    manifest: Option<&Manifest>,
    directory: &str,
    role: Role,
    version: &str,
    rust_version: &str,
) -> (r: Result<PatchAction, PatchError>)
    ensures
        match manifest {
            Some(m) => !is_table(m@, seq!["dependencies"@]) ==> r == Err::<
                PatchAction,
                PatchError,
            >(PatchError::NoDependencies),
            None => true,
        },
        ({
            let current = match manifest {
                Some(m) => is_current(m@, role, version@, rust_version@),
                None => false,
            };
            (match manifest {
                Some(m) => is_table(m@, seq!["dependencies"@]),
                None => true,
            }) ==> match r {
                Ok(PatchAction::Keep) => current,
                Ok(PatchAction::Regenerate { source_cache }) => {
                    &&& !current
                    &&& exists|p: Seq<char>|
                        #[trigger] is_parent_text(p, directory@) && source_cache@ == joined_name(
                            p,
                            "source"@,
                        )
                },
                Err(e) => e == PatchError::NoParent && !current,
            }
        }),
        forall|d: Seq<char>|
            portable(directory@) && #[trigger] plain_child_of(directory@, d) ==> (r matches Err(e)
                ==> e != PatchError::NoParent) && (r matches Ok(
                PatchAction::Regenerate { source_cache, .. },
            ) ==> source_cache@ == joined_name(d, "source"@)),
{
    let current = match manifest {
        Some(m) => patch_current(m, role, version, rust_version)?,
        None => false,
    };
    if current {
        return Ok(PatchAction::Keep);
    }
    match path_parent(directory) {
        Some(p) => Ok(PatchAction::Regenerate { source_cache: join_name(p.as_str(), "source") }),
        None => Err(PatchError::NoParent),
    }
}

/// The manifest for Tokio's test suite, which is also its own workspace.
pub open spec fn test_manifest(
    m: Seq<(Seq<Seq<char>>, LeafView)>,
    host: Seq<(Seq<Seq<char>>, LeafView)>,
) -> Result<Seq<(Seq<Seq<char>>, LeafView)>, PatchError> {
    match crate::guest::test_manifest(m, host) {
        Ok(m1) => Ok(replaced(m1, seq!["workspace"@], seq![])),
        Err(e) => Err(e),
    }
}

/// Edits the guest manifest for Tokio's test suite; `host` is the dependency
/// on the host runtime.
pub fn prepare_tests_manifest(manifest: &mut Manifest, host: Vec<crate::manifest::Entry>) -> (r:
    Result<(), PatchError>)
    ensures
        match test_manifest(old(manifest)@, entry_views(host@)) {
            Ok(m) => r is Ok && final(manifest)@ == m,
            Err(e) => r == Err::<(), PatchError>(e),
        },
{
    crate::guest::prepare_tests_manifest(manifest, host)?;
    let nothing: Vec<crate::manifest::Entry> = Vec::new();
    assert(entry_views(nothing@) =~= Seq::<(Seq<Seq<char>>, LeafView)>::empty());
    manifest.replace(path1("workspace").as_slice(), nothing);
    Ok(())
}

/// A current guest patch depends on `telekio-host` exactly when its role is
/// Host, so it is current for one role only.
pub proof fn guest_patch_role_law(
    m: Seq<(Seq<Seq<char>>, LeafView)>,
    role: Role,
    version: Seq<char>,
    rust_version: Seq<char>,
)
    requires
        is_current(m, role, version, rust_version),
    ensures
        holds(m, seq!["dependencies"@, "telekio-host"@]) == (role == Role::Host),
        forall|other: Role| #[trigger] is_current(m, other, version, rust_version) ==> other == role,
{
}

} // verus!
