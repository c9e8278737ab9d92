//! A patch that has just been written is current: the check that decides
//! whether to regenerate a patch accepts what the writer produces.
use vstd::prelude::*;

use crate::manifest::facts::{
    agree, has, lemma_agree_chain, lemma_ensured_table_frame, lemma_is_table_has, lemma_keep_has,
    lemma_placed_has, lemma_push_has, lemma_removed_under_clears, lemma_removed_under_frame,
    lemma_removed_under_within, lemma_replaced_child, lemma_replaced_frame, lemma_replaced_has,
    lemma_replaced_within, lemma_value_at_only, lemma_within_not_holds, lemma_without_key_clears,
    lemma_holds_has, lemma_without_key_frame, lemma_without_key_within, paths_within,
    table_witness,
};
use crate::manifest::{
    ItemView, LeafView, array_has_str, bool_at, ensured_table, value_at, holds, is_key_below, is_table, is_under, keep_entries, placed,
    removed_under, replaced, str_at, without_key,
};
use crate::text::contains_chars;
use crate::package::{
    Feature, PatchError, Role, no_path_dependencies, forwarded, forwarded_entry, host_children, host_dependency_added,
    host_path, is_target_dev_entry, native_target, patched_manifest, pruned_targets,
    without_extra_targets, without_package_metadata,
};

verus! {

/// Dropping the targets' development dependencies leaves everything outside `target`.
pub proof fn lemma_pruned_frame(
    m: Seq<(Seq<Seq<char>>, LeafView)>,
    region: spec_fn(Seq<Seq<char>>) -> bool,
)
    requires
        forall|q: Seq<Seq<char>>| #[trigger] region(q) ==> q.len() == 0 || q[0] != "target"@,
    ensures
        agree(m, pruned_targets(m), region),
{
    if is_table(m, seq!["target"@]) {
        let keep = |e: (Seq<Seq<char>>, LeafView)| !is_target_dev_entry(e);
        let rest = keep_entries(m, keep);
        assert forall|e: (Seq<Seq<char>>, LeafView)| region(e.0) implies (has(m, e) <==> has(
            pruned_targets(m),
            e,
        )) by {
            lemma_keep_has(m, keep, e);
            if !crate::manifest::holds(rest, seq!["target"@]) {
                lemma_push_has(rest, (seq!["target"@], LeafView::EmptyTable), e);
            }
        }
    }
}

/// Forwarding features to the host leaves everything outside the features' entries.
pub proof fn lemma_forwarded_frame(
    m: Seq<(Seq<Seq<char>>, LeafView)>,
    region: spec_fn(Seq<Seq<char>>) -> bool,
)
    requires
        forwarded(m) is Some,
        forall|q: Seq<Seq<char>>| #[trigger] region(q) ==> !(q.len() >= 2 && q[0] == "features"@),
    ensures
        agree(m, forwarded(m)->0, region),
{
    let f = |e: (Seq<Seq<char>>, LeafView)| forwarded_entry(e);
    let out = m.map_values(f);
    assert forall|e: (Seq<Seq<char>>, LeafView)| region(e.0) implies (has(m, e) <==> has(out, e)) by {
        if has(m, e) {
            let i = choose|i: int| 0 <= i < m.len() && m[i] == e;
            assert(out[i] == forwarded_entry(e));
        }
        if has(out, e) {
            let i = choose|i: int| 0 <= i < out.len() && out[i] == e;
            assert(out[i] == forwarded_entry(m[i]));
            assert(m[i].0 == e.0);
        }
    }
}

/// Adding the host runtime leaves everything outside `target` (and the root).
pub proof fn lemma_host_added_frame(
    m: Seq<(Seq<Seq<char>>, LeafView)>,
    version: Seq<char>,
    region: spec_fn(Seq<Seq<char>>) -> bool,
)
    requires
        host_dependency_added(m, version) is Ok,
        forall|q: Seq<Seq<char>>| #[trigger] region(q) ==> q.len() > 0 && q[0] != "target"@,
    ensures
        agree(m, host_dependency_added(m, version)->Ok_0, region),
{
    let t = seq!["target"@];
    let tn = seq!["target"@, native_target()];
    let tnd = seq!["target"@, native_target(), "dependencies"@];
    assert(t.drop_last() =~= Seq::<Seq<char>>::empty());
    assert(tn.drop_last() =~= t);
    assert(tnd.drop_last() =~= tn);
    assert(host_path().drop_last() =~= tnd);
    assert forall|q: Seq<Seq<char>>| #[trigger] region(q) implies !is_under(t, q) && q
        != t.drop_last() by {
        if is_under(t, q) {
            assert(q.subrange(0, 1)[0] == q[0]);
        }
    }
    lemma_ensured_table_frame(m, t, region);
    let a = ensured_table(m, t)->0;
    assert forall|q: Seq<Seq<char>>| #[trigger] region(q) implies !is_under(tn, q) && q
        != tn.drop_last() by {
        if is_under(tn, q) {
            assert(q.subrange(0, 2)[0] == q[0]);
        }
    }
    lemma_ensured_table_frame(a, tn, region);
    let b = ensured_table(a, tn)->0;
    assert forall|q: Seq<Seq<char>>| #[trigger] region(q) implies !is_under(tnd, q) && q
        != tnd.drop_last() by {
        if is_under(tnd, q) {
            assert(q.subrange(0, 3)[0] == q[0]);
        }
    }
    lemma_ensured_table_frame(b, tnd, region);
    let c = ensured_table(b, tnd)->0;
    assert forall|q: Seq<Seq<char>>| #[trigger] region(q) implies !is_under(host_path(), q) && q
        != host_path().drop_last() by {
        if is_under(host_path(), q) {
            assert(q.subrange(0, 4)[0] == q[0]);
        }
    }
    lemma_replaced_frame(c, host_path(), host_children(version), region);
    lemma_agree_chain(m, a, b, region);
    lemma_agree_chain(m, b, c, region);
    lemma_agree_chain(m, c, replaced(c, host_path(), host_children(version)), region);
}

/// The lengths and leading characters of the keys the writer uses, which tell them apart.
pub proof fn lemma_keys()
    ensures
        "features"@.len() == 8,
        "features"@[0] == 'f',
        "features"@[1] == 'e',
        "features"@[2] == 'a',
        "package"@.len() == 7,
        "package"@[0] == 'p',
        "package"@[1] == 'a',
        "package"@[2] == 'c',
        "build"@.len() == 5,
        "build"@[0] == 'b',
        "build"@[1] == 'u',
        "build"@[2] == 'i',
        "rust-version"@.len() == 12,
        "rust-version"@[0] == 'r',
        "rust-version"@[1] == 'u',
        "rust-version"@[2] == 's',
        "authors"@.len() == 7,
        "authors"@[0] == 'a',
        "authors"@[1] == 'u',
        "authors"@[2] == 't',
        "categories"@.len() == 10,
        "categories"@[0] == 'c',
        "categories"@[1] == 'a',
        "categories"@[2] == 't',
        "homepage"@.len() == 8,
        "homepage"@[0] == 'h',
        "homepage"@[1] == 'o',
        "homepage"@[2] == 'm',
        "keywords"@.len() == 8,
        "keywords"@[0] == 'k',
        "keywords"@[1] == 'e',
        "keywords"@[2] == 'y',
        "metadata"@.len() == 8,
        "metadata"@[0] == 'm',
        "metadata"@[1] == 'e',
        "metadata"@[2] == 't',
        "readme"@.len() == 6,
        "readme"@[0] == 'r',
        "readme"@[1] == 'e',
        "readme"@[2] == 'a',
        "repository"@.len() == 10,
        "repository"@[0] == 'r',
        "repository"@[1] == 'e',
        "repository"@[2] == 'p',
        "dependencies"@.len() == 12,
        "dependencies"@[0] == 'd',
        "dependencies"@[1] == 'e',
        "dependencies"@[2] == 'p',
        "dev-dependencies"@.len() == 16,
        "dev-dependencies"@[0] == 'd',
        "dev-dependencies"@[1] == 'e',
        "dev-dependencies"@[2] == 'v',
        "bench"@.len() == 5,
        "bench"@[0] == 'b',
        "bench"@[1] == 'e',
        "bench"@[2] == 'n',
        "bin"@.len() == 3,
        "bin"@[0] == 'b',
        "bin"@[1] == 'i',
        "bin"@[2] == 'n',
        "example"@.len() == 7,
        "example"@[0] == 'e',
        "example"@[1] == 'x',
        "example"@[2] == 'a',
        "test"@.len() == 4,
        "test"@[0] == 't',
        "test"@[1] == 'e',
        "test"@[2] == 's',
        "target"@.len() == 6,
        "target"@[0] == 't',
        "target"@[1] == 'a',
        "target"@[2] == 'r',
        "build-dependencies"@.len() == 18,
        "build-dependencies"@[0] == 'b',
        "build-dependencies"@[1] == 'u',
        "build-dependencies"@[2] == 'i',
        "telekio-abi"@.len() == 11,
        "telekio-abi"@[0] == 't',
        "telekio-abi"@[1] == 'e',
        "telekio-abi"@[2] == 'l',
        "telekio-abi"@[8] == 'a',
        "telekio-host"@.len() == 12,
        "telekio-host"@[0] == 't',
        "telekio-host"@[1] == 'e',
        "telekio-host"@[2] == 'l',
        "telekio-host"@[8] == 'h',
        "telekio-build"@.len() == 13,
        "telekio-build"@[0] == 't',
        "telekio-build"@[1] == 'e',
        "telekio-build"@[2] == 'l',
        "telekio-build"@[8] == 'b',
        "telekio-test"@.len() == 12,
        "telekio-test"@[0] == 't',
        "telekio-test"@[1] == 'e',
        "telekio-test"@[2] == 'l',
        "telekio-test"@[8] == 't',
        "version"@.len() == 7,
        "version"@[0] == 'v',
        "version"@[1] == 'e',
        "version"@[2] == 'r',
        "path"@.len() == 4,
        "path"@[0] == 'p',
        "path"@[1] == 'a',
        "path"@[2] == 't',
        "default"@.len() == 7,
        "default"@[0] == 'd',
        "default"@[1] == 'e',
        "default"@[2] == 'f',
        "default-features"@.len() == 16,
        "default-features"@[0] == 'd',
        "default-features"@[1] == 'e',
        "default-features"@[2] == 'f',
        "cfg(all(any(unix, windows), not(loom)))"@.len() == 39,
        "cfg(all(any(unix, windows), not(loom)))"@[0] == 'c',
        "cfg(all(any(unix, windows), not(loom)))"@[1] == 'f',
        "cfg(all(any(unix, windows), not(loom)))"@[2] == 'g',
{
    reveal_strlit("features");
    reveal_strlit("package");
    reveal_strlit("build");
    reveal_strlit("rust-version");
    reveal_strlit("authors");
    reveal_strlit("categories");
    reveal_strlit("homepage");
    reveal_strlit("keywords");
    reveal_strlit("metadata");
    reveal_strlit("readme");
    reveal_strlit("repository");
    reveal_strlit("dependencies");
    reveal_strlit("dev-dependencies");
    reveal_strlit("bench");
    reveal_strlit("bin");
    reveal_strlit("example");
    reveal_strlit("test");
    reveal_strlit("target");
    reveal_strlit("build-dependencies");
    reveal_strlit("telekio-abi");
    reveal_strlit("telekio-host");
    reveal_strlit("telekio-build");
    reveal_strlit("telekio-test");
    reveal_strlit("version");
    reveal_strlit("path");
    reveal_strlit("default");
    reveal_strlit("default-features");
    reveal_strlit("cfg(all(any(unix, windows), not(loom)))");
}

/// A path below `p` begins with `p`'s first keys.
pub proof fn lemma_under_head(p: Seq<Seq<char>>, q: Seq<Seq<char>>)
    requires
        is_under(p, q),
    ensures
        p.len() > 0 ==> q[0] == p[0],
        p.len() > 1 ==> q[1] == p[1],
        p.len() > 2 ==> q[2] == p[2],
        q.len() >= p.len(),
{
    if p.len() > 0 {
        assert(q.subrange(0, p.len() as int)[0] == q[0]);
    }
    if p.len() > 1 {
        assert(q.subrange(0, p.len() as int)[1] == q[1]);
    }
    if p.len() > 2 {
        assert(q.subrange(0, p.len() as int)[2] == q[2]);
    }
}

/// The manifest after each step of writing the patch.
pub open spec fn with_features(m: Seq<(Seq<Seq<char>>, LeafView)>, features: Seq<Feature>) -> Seq<(Seq<Seq<char>>, LeafView)> {
    replaced(m, seq!["features"@], crate::package::feature_children(features))
}

pub open spec fn with_build_settings(m1: Seq<(Seq<Seq<char>>, LeafView)>, rust_version: Seq<char>) -> Seq<(Seq<Seq<char>>, LeafView)> {
    replaced(
        replaced(m1, seq!["package"@, "build"@], seq![(seq![], LeafView::Str("build.rs"@))]),
        seq!["package"@, "rust-version"@],
        seq![(seq![], LeafView::Str(rust_version))],
    )
}

pub open spec fn trimmed(m2: Seq<(Seq<Seq<char>>, LeafView)>) -> Seq<(Seq<Seq<char>>, LeafView)> {
    pruned_targets(without_extra_targets(without_package_metadata(m2)))
}

pub open spec fn forwarded_if(m3: Seq<(Seq<Seq<char>>, LeafView)>, host: bool) -> Seq<(Seq<Seq<char>>, LeafView)> {
    if host {
        forwarded(m3)->0
    } else {
        m3
    }
}

pub open spec fn with_abi(m4: Seq<(Seq<Seq<char>>, LeafView)>, source_role: Role, version: Seq<char>) -> Seq<(Seq<Seq<char>>, LeafView)> {
    without_key(
        replaced(
            m4,
            seq!["dependencies"@, "telekio-abi"@],
            crate::package::registry_children(Some(source_role), version),
        ),
        seq!["dependencies"@],
        "telekio-host"@,
    )
}

pub open spec fn with_host_if(m5: Seq<(Seq<Seq<char>>, LeafView)>, host: bool, version: Seq<char>) -> Seq<(Seq<Seq<char>>, LeafView)> {
    if host {
        host_dependency_added(m5, version)->Ok_0
    } else {
        m5
    }
}

pub open spec fn with_build_dependency(m6: Seq<(Seq<Seq<char>>, LeafView)>, version: Seq<char>) -> Seq<(Seq<Seq<char>>, LeafView)> {
    replaced(
        m6,
        seq!["build-dependencies"@],
        seq![(seq!["telekio-build"@, "version"@], LeafView::Str("="@ + version))],
    )
}

/// The steps of writing the patch, when it succeeds, and what each one found.
pub open spec fn written(
    m: Seq<(Seq<Seq<char>>, LeafView)>,
    features: Seq<Feature>,
    source_role: Role,
    dependency_role: Role,
    version: Seq<char>,
    rust_version: Seq<char>,
) -> Seq<(Seq<Seq<char>>, LeafView)> {
    let host = dependency_role == Role::Host;
    let m3 = trimmed(with_build_settings(with_features(m, features), rust_version));
    with_build_dependency(
        with_host_if(with_abi(forwarded_if(m3, host), source_role, version), host, version),
        version,
    )
}

pub proof fn lemma_written_steps(
    m: Seq<(Seq<Seq<char>>, LeafView)>,
    features: Seq<Feature>,
    source_role: Role,
    dependency_role: Role,
    version: Seq<char>,
    rust_version: Seq<char>,
)
    requires
        patched_manifest(m, features, source_role, dependency_role, version, rust_version) is Ok,
    ensures
        ({
            let host = dependency_role == Role::Host;
            let m1 = with_features(m, features);
            let m2 = with_build_settings(m1, rust_version);
            let m3 = trimmed(m2);
            let m4 = forwarded_if(m3, host);
            let m5 = with_abi(m4, source_role, version);
            &&& is_table(m1, seq!["package"@])
            &&& is_table(m3, seq!["features"@])
            &&& host ==> forwarded(m3) is Some
            &&& is_table(m4, seq!["dependencies"@])
            &&& host ==> host_dependency_added(m5, version) is Ok
            &&& patched_manifest(m, features, source_role, dependency_role, version, rust_version)
                == Ok::<Seq<(Seq<Seq<char>>, LeafView)>, PatchError>(
                written(m, features, source_role, dependency_role, version, rust_version),
            )
        }),
{
}

/// A path that the writer does not touch once the build settings are in place.
pub open spec fn untouched_after_settings(q: Seq<Seq<char>>) -> bool {
    &&& q.len() > 0
    &&& q[0] != "target"@ && q[0] != "dev-dependencies"@ && q[0] != "bench"@ && q[0] != "bin"@
        && q[0] != "example"@ && q[0] != "test"@ && q[0] != "build-dependencies"@
    &&& !(q[0] == "features"@ && q.len() >= 2)
    &&& q != seq!["dependencies"@] && q != seq!["package"@]
    &&& !(q.len() >= 2 && q[0] == "dependencies"@ && (q[1] == "telekio-abi"@ || q[1]
        == "telekio-host"@))
    &&& !(q.len() >= 2 && q[0] == "package"@ && (q[1] == "authors"@ || q[1] == "categories"@
        || q[1] == "homepage"@ || q[1] == "keywords"@ || q[1] == "metadata"@ || q[1] == "readme"@
        || q[1] == "repository"@))
}

pub proof fn lemma_without_key_untouched(
    m: Seq<(Seq<Seq<char>>, LeafView)>,
    table: Seq<Seq<char>>,
    key: Seq<char>,
    region: spec_fn(Seq<Seq<char>>) -> bool,
)
    requires
        forall|q: Seq<Seq<char>>| #[trigger] region(q) ==> q != table && !(q.len() >= 2
            && q[0] == table[0] && q[1] == key),
        table.len() == 1,
    ensures
        agree(m, without_key(m, table, key), region),
{
    assert forall|q: Seq<Seq<char>>| #[trigger] region(q) implies !is_under(table.push(key), q)
        && q != table by {
        if is_under(table.push(key), q) {
            lemma_under_head(table.push(key), q);
        }
    }
    lemma_without_key_frame(m, table, key, region);
}

pub proof fn lemma_removed_root_untouched(
    m: Seq<(Seq<Seq<char>>, LeafView)>,
    root: Seq<char>,
    region: spec_fn(Seq<Seq<char>>) -> bool,
)
    requires
        forall|q: Seq<Seq<char>>| #[trigger] region(q) ==> q.len() > 0 && q[0] != root,
    ensures
        agree(m, removed_under(m, seq![root]), region),
{
    assert forall|q: Seq<Seq<char>>| #[trigger] region(q) implies !is_under(seq![root], q) by {
        if is_under(seq![root], q) {
            lemma_under_head(seq![root], q);
        }
    }
    lemma_removed_under_frame(m, seq![root], region);
}

pub proof fn lemma_settings_to_written(
    m2: Seq<(Seq<Seq<char>>, LeafView)>,
    source_role: Role,
    dependency_role: Role,
    version: Seq<char>,
    region: spec_fn(Seq<Seq<char>>) -> bool,
)
    requires
        forall|q: Seq<Seq<char>>| #[trigger] region(q) ==> untouched_after_settings(q),
        dependency_role == Role::Host ==> forwarded(trimmed(m2)) is Some,
        dependency_role == Role::Host ==> host_dependency_added(
            with_abi(forwarded_if(trimmed(m2), true), source_role, version),
            version,
        ) is Ok,
    ensures
        ({
            let host = dependency_role == Role::Host;
            agree(
                m2,
                with_build_dependency(
                    with_host_if(
                        with_abi(forwarded_if(trimmed(m2), host), source_role, version),
                        host,
                        version,
                    ),
                    version,
                ),
                region,
            )
        }),
{
    reveal_strlit("authors");
    reveal_strlit("categories");
    reveal_strlit("homepage");
    reveal_strlit("keywords");
    reveal_strlit("metadata");
    reveal_strlit("readme");
    reveal_strlit("repository");
    reveal_strlit("dev-dependencies");
    reveal_strlit("bench");
    reveal_strlit("bin");
    reveal_strlit("example");
    reveal_strlit("test");
    reveal_strlit("package");
    reveal_strlit("dependencies");
    reveal_strlit("target");
    reveal_strlit("features");
    reveal_strlit("build-dependencies");
    reveal_strlit("telekio-abi");
    reveal_strlit("telekio-host");
    reveal_strlit("telekio-build");
    reveal_strlit("version");
    let host = dependency_role == Role::Host;
    let p = seq!["package"@];
    lemma_without_key_untouched(m2, p, "authors"@, region);
    let a0 = without_key(m2, p, "authors"@);
    lemma_without_key_untouched(a0, p, "categories"@, region);
    let a1 = without_key(a0, p, "categories"@);
    lemma_without_key_untouched(a1, p, "homepage"@, region);
    let a2 = without_key(a1, p, "homepage"@);
    lemma_without_key_untouched(a2, p, "keywords"@, region);
    let a3 = without_key(a2, p, "keywords"@);
    lemma_without_key_untouched(a3, p, "metadata"@, region);
    let a4 = without_key(a3, p, "metadata"@);
    lemma_without_key_untouched(a4, p, "readme"@, region);
    let a5 = without_key(a4, p, "readme"@);
    lemma_without_key_untouched(a5, p, "repository"@, region);
    let a6 = without_key(a5, p, "repository"@);
    assert(a6 == without_package_metadata(m2));
    lemma_removed_root_untouched(a6, "dev-dependencies"@, region);
    let b0 = removed_under(a6, seq!["dev-dependencies"@]);
    lemma_removed_root_untouched(b0, "bench"@, region);
    let b1 = removed_under(b0, seq!["bench"@]);
    lemma_removed_root_untouched(b1, "bin"@, region);
    let b2 = removed_under(b1, seq!["bin"@]);
    lemma_removed_root_untouched(b2, "example"@, region);
    let b3 = removed_under(b2, seq!["example"@]);
    lemma_removed_root_untouched(b3, "test"@, region);
    let b4 = removed_under(b3, seq!["test"@]);
    assert(seq!["dev-dependencies"@] == seq!["dev-dependencies"@]);
    assert(b4 == without_extra_targets(without_package_metadata(m2)));
    lemma_pruned_frame(b4, region);
    let m3 = trimmed(m2);
    if host {
        lemma_forwarded_frame(m3, region);
    }
    let m4 = forwarded_if(m3, host);
    let abi = seq!["dependencies"@, "telekio-abi"@];
    assert(abi.drop_last() =~= seq!["dependencies"@]);
    assert forall|q: Seq<Seq<char>>| #[trigger] region(q) implies !is_under(abi, q) && q
        != abi.drop_last() by {
        if is_under(abi, q) {
            lemma_under_head(abi, q);
        }
    }
    lemma_replaced_frame(m4, abi, crate::package::registry_children(Some(source_role), version), region);
    let c1 = replaced(m4, abi, crate::package::registry_children(Some(source_role), version));
    lemma_without_key_untouched(c1, seq!["dependencies"@], "telekio-host"@, region);
    let m5 = with_abi(m4, source_role, version);
    if host {
        lemma_host_added_frame(m5, version, region);
    }
    let m6 = with_host_if(m5, host, version);
    let bd = seq!["build-dependencies"@];
    assert(bd.drop_last() =~= Seq::<Seq<char>>::empty());
    assert forall|q: Seq<Seq<char>>| #[trigger] region(q) implies !is_under(bd, q) && q
        != bd.drop_last() by {
        if is_under(bd, q) {
            lemma_under_head(bd, q);
        }
    }
    lemma_replaced_frame(
        m6,
        bd,
        seq![(seq!["telekio-build"@, "version"@], LeafView::Str("="@ + version))],
        region,
    );
    let done = with_build_dependency(m6, version);
    assert(agree(m3, m4, region));
    assert(agree(m5, m6, region));
    lemma_agree_chain(m2, a0, a1, region);
    lemma_agree_chain(m2, a1, a2, region);
    lemma_agree_chain(m2, a2, a3, region);
    lemma_agree_chain(m2, a3, a4, region);
    lemma_agree_chain(m2, a4, a5, region);
    lemma_agree_chain(m2, a5, a6, region);
    lemma_agree_chain(m2, a6, b0, region);
    lemma_agree_chain(m2, b0, b1, region);
    lemma_agree_chain(m2, b1, b2, region);
    lemma_agree_chain(m2, b2, b3, region);
    lemma_agree_chain(m2, b3, b4, region);
    lemma_agree_chain(m2, b4, m3, region);
    lemma_agree_chain(m2, m3, m4, region);
    lemma_agree_chain(m2, m4, c1, region);
    lemma_agree_chain(m2, c1, m5, region);
    lemma_agree_chain(m2, m5, m6, region);
    lemma_agree_chain(m2, m6, done, region);
}

/// The value placed at `path` by replacing it with a single value is the only
/// value there.
pub proof fn lemma_replaced_single(
    m: Seq<(Seq<Seq<char>>, LeafView)>,
    path: Seq<Seq<char>>,
    v: LeafView,
)
    requires
        !(v is EmptyTable),
    ensures
        has(replaced(m, path, seq![(Seq::<Seq<char>>::empty(), v)]), (path, v)),
        forall|e: (Seq<Seq<char>>, LeafView)|
            has(replaced(m, path, seq![(Seq::<Seq<char>>::empty(), v)]), e) && e.0 == path ==> e.1
                == v,
{
    let children = seq![(Seq::<Seq<char>>::empty(), v)];
    assert(path + children[0].0 =~= path);
    lemma_placed_has(path, children, (path, v));
    lemma_replaced_has(m, path, children, (path, v));
    assert forall|e: (Seq<Seq<char>>, LeafView)|
        has(replaced(m, path, children), e) && e.0 == path implies e.1 == v by {
        lemma_replaced_has(m, path, children, e);
        lemma_placed_has(path, children, e);
        assert(is_under(path, e.0)) by {
            assert(e.0.subrange(0, path.len() as int) =~= path);
        }
        if has(placed(path, children), e) {
            let i = choose|i: int|
                0 <= i < children.len() && e == (path + (#[trigger] children[i]).0, children[i].1);
            assert(i == 0);
        }
    }
}

proof fn lemma_rust_version_untouched()
    ensures
        untouched_after_settings(seq!["package"@, "rust-version"@]),
{
    lemma_keys();
    let p = seq!["package"@, "rust-version"@];
    assert(p[0] == "package"@ && p[1] == "rust-version"@ && p.len() == 2);
    assert(p != seq!["package"@]) by {
        assert(seq!["package"@].len() == 1);
    }
    assert(p != seq!["dependencies"@]) by {
        assert(seq!["dependencies"@].len() == 1);
    }
}

/// The written manifest pins the Rust version that the patch needs.
pub proof fn lemma_written_rust_version(
    m: Seq<(Seq<Seq<char>>, LeafView)>,
    features: Seq<Feature>,
    source_role: Role,
    dependency_role: Role,
    version: Seq<char>,
    rust_version: Seq<char>,
)
    requires
        patched_manifest(m, features, source_role, dependency_role, version, rust_version) is Ok,
    ensures
        str_at(
            written(m, features, source_role, dependency_role, version, rust_version),
            seq!["package"@, "rust-version"@],
        ) == Some(rust_version),
        has(
            written(m, features, source_role, dependency_role, version, rust_version),
            (seq!["package"@, "rust-version"@], LeafView::Str(rust_version)),
        ),
{
    lemma_written_steps(m, features, source_role, dependency_role, version, rust_version);
    reveal_strlit("package");
    reveal_strlit("rust-version");
    reveal_strlit("authors");
    reveal_strlit("categories");
    reveal_strlit("homepage");
    reveal_strlit("keywords");
    reveal_strlit("metadata");
    reveal_strlit("readme");
    reveal_strlit("repository");
    reveal_strlit("target");
    reveal_strlit("dev-dependencies");
    reveal_strlit("bench");
    reveal_strlit("bin");
    reveal_strlit("example");
    reveal_strlit("test");
    reveal_strlit("build-dependencies");
    reveal_strlit("features");
    reveal_strlit("dependencies");
    let q = seq!["package"@, "rust-version"@];
    let m1 = with_features(m, features);
    let r1 = replaced(m1, seq!["package"@, "build"@], seq![(seq![], LeafView::Str("build.rs"@))]);
    let m2 = with_build_settings(m1, rust_version);
    lemma_replaced_single(r1, q, LeafView::Str(rust_version));
    let region = |p: Seq<Seq<char>>| p == q;
    lemma_rust_version_untouched();
    lemma_settings_to_written(m2, source_role, dependency_role, version, region);
    let done = written(m, features, source_role, dependency_role, version, rust_version);
    assert forall|e: (Seq<Seq<char>>, LeafView)|
        has(done, e) && e.0 == q && !(e.1 is EmptyTable) implies e.1 == LeafView::Str(
        rust_version,
    ) by {
        assert(region(e.0));
    }
    assert(region(q));
    lemma_value_at_only(done, q, LeafView::Str(rust_version));
}

pub proof fn lemma_pruned_within(
    m: Seq<(Seq<Seq<char>>, LeafView)>,
    allowed: spec_fn(Seq<Seq<char>>) -> bool,
)
    requires
        paths_within(m, allowed),
        allowed(seq!["target"@]),
    ensures
        paths_within(pruned_targets(m), allowed),
{
    if is_table(m, seq!["target"@]) {
        let keep = |e: (Seq<Seq<char>>, LeafView)| !is_target_dev_entry(e);
        let rest = keep_entries(m, keep);
        assert forall|e: (Seq<Seq<char>>, LeafView)| #[trigger] has(pruned_targets(m), e) implies allowed(
            e.0,
        ) by {
            lemma_keep_has(m, keep, e);
            if !crate::manifest::holds(rest, seq!["target"@]) {
                lemma_push_has(rest, (seq!["target"@], LeafView::EmptyTable), e);
            }
        }
    }
}

pub proof fn lemma_forwarded_within(
    m: Seq<(Seq<Seq<char>>, LeafView)>,
    allowed: spec_fn(Seq<Seq<char>>) -> bool,
)
    requires
        paths_within(m, allowed),
        forwarded(m) is Some,
    ensures
        paths_within(forwarded(m)->0, allowed),
{
    let out = forwarded(m)->0;
    assert forall|e: (Seq<Seq<char>>, LeafView)| #[trigger] has(out, e) implies allowed(e.0) by {
        let i = choose|i: int| 0 <= i < out.len() && out[i] == e;
        assert(out[i] == forwarded_entry(m[i]));
        assert(has(m, m[i]));
    }
}

pub proof fn lemma_ensured_within(
    m: Seq<(Seq<Seq<char>>, LeafView)>,
    path: Seq<Seq<char>>,
    allowed: spec_fn(Seq<Seq<char>>) -> bool,
)
    requires
        paths_within(m, allowed),
        ensured_table(m, path) is Some,
        allowed(path),
    ensures
        paths_within(ensured_table(m, path)->0, allowed),
{
    if !is_table(m, path) {
        assert forall|e: (Seq<Seq<char>>, LeafView)| #[trigger] has(placed(path, seq![]), e) implies allowed(
            e.0,
        ) by {
            lemma_placed_has(path, seq![], e);
        }
        lemma_replaced_within(m, path, seq![], allowed);
    }
}

/// Entries placed from literal children lie at the children's paths below `path`.
pub proof fn lemma_placed_within(
    path: Seq<Seq<char>>,
    children: Seq<(Seq<Seq<char>>, LeafView)>,
    allowed: spec_fn(Seq<Seq<char>>) -> bool,
)
    requires
        children.len() > 0,
        forall|i: int| 0 <= i < children.len() ==> allowed(path + (#[trigger] children[i]).0),
    ensures
        paths_within(placed(path, children), allowed),
{
    assert forall|e: (Seq<Seq<char>>, LeafView)| #[trigger] has(placed(path, children), e) implies allowed(
        e.0,
    ) by {
        lemma_placed_has(path, children, e);
        let i = choose|i: int|
            0 <= i < children.len() && e == (path + (#[trigger] children[i]).0, children[i].1);
    }
}

/// The paths at which adding the host runtime puts entries.
pub open spec fn host_paths_allowed(allowed: spec_fn(Seq<Seq<char>>) -> bool) -> bool {
    &&& allowed(seq!["target"@])
    &&& allowed(seq!["target"@, native_target()])
    &&& allowed(seq!["target"@, native_target(), "dependencies"@])
    &&& allowed(host_path().push("version"@))
    &&& allowed(host_path().push("default-features"@))
}

pub proof fn lemma_host_added_within(
    m: Seq<(Seq<Seq<char>>, LeafView)>,
    version: Seq<char>,
    allowed: spec_fn(Seq<Seq<char>>) -> bool,
)
    requires
        paths_within(m, allowed),
        host_dependency_added(m, version) is Ok,
        host_paths_allowed(allowed),
    ensures
        paths_within(host_dependency_added(m, version)->Ok_0, allowed),
{
    let t = seq!["target"@];
    let tn = seq!["target"@, native_target()];
    let tnd = seq!["target"@, native_target(), "dependencies"@];
    lemma_ensured_within(m, t, allowed);
    let a = ensured_table(m, t)->0;
    lemma_ensured_within(a, tn, allowed);
    let b = ensured_table(a, tn)->0;
    lemma_ensured_within(b, tnd, allowed);
    let c = ensured_table(b, tnd)->0;
    let children = host_children(version);
    assert(host_path() + children[0].0 =~= host_path().push("version"@));
    assert(host_path() + children[1].0 =~= host_path().push("default-features"@));
    lemma_placed_within(host_path(), children, allowed);
    lemma_replaced_within(c, host_path(), children, allowed);
}

/// A property of paths that holds of the trimmed manifest keeps holding through
/// the rest of the writing, when the entries the writer adds have it too.
pub proof fn lemma_within_after_trim(
    m3: Seq<(Seq<Seq<char>>, LeafView)>,
    source_role: Role,
    dependency_role: Role,
    version: Seq<char>,
    allowed: spec_fn(Seq<Seq<char>>) -> bool,
)
    requires
        paths_within(m3, allowed),
        dependency_role == Role::Host ==> forwarded(m3) is Some,
        dependency_role == Role::Host ==> host_dependency_added(
            with_abi(forwarded_if(m3, true), source_role, version),
            version,
        ) is Ok,
        allowed(seq!["dependencies"@]),
        allowed(seq!["dependencies"@, "telekio-abi"@, "version"@]),
        allowed(seq!["dependencies"@, "telekio-abi"@, "features"@]),
        allowed(seq!["build-dependencies"@, "telekio-build"@, "version"@]),
        dependency_role == Role::Host ==> host_paths_allowed(allowed),
    ensures
        ({
            let host = dependency_role == Role::Host;
            paths_within(
                with_build_dependency(
                    with_host_if(with_abi(forwarded_if(m3, host), source_role, version), host, version),
                    version,
                ),
                allowed,
            )
        }),
{
    let host = dependency_role == Role::Host;
    if host {
        lemma_forwarded_within(m3, allowed);
    }
    let m4 = forwarded_if(m3, host);
    let abi = seq!["dependencies"@, "telekio-abi"@];
    let children = crate::package::registry_children(Some(source_role), version);
    assert(abi + children[0].0 =~= seq!["dependencies"@, "telekio-abi"@, "version"@]);
    assert(abi + children[1].0 =~= seq!["dependencies"@, "telekio-abi"@, "features"@]);
    lemma_placed_within(abi, children, allowed);
    lemma_replaced_within(m4, abi, children, allowed);
    lemma_without_key_within(replaced(m4, abi, children), seq!["dependencies"@], "telekio-host"@, allowed);
    let m5 = with_abi(m4, source_role, version);
    if host {
        lemma_host_added_within(m5, version, allowed);
    }
    let m6 = with_host_if(m5, host, version);
    let bd = seq!["build-dependencies"@];
    let last = seq![(seq!["telekio-build"@, "version"@], LeafView::Str("="@ + version))];
    assert(bd + last[0].0 =~= seq!["build-dependencies"@, "telekio-build"@, "version"@]);
    lemma_placed_within(bd, last, allowed);
    lemma_replaced_within(m6, bd, last, allowed);
}

/// The removal of the extra targets and the pruning of the targets keep a
/// property of paths that holds of the entries the pruning may add.
pub proof fn lemma_within_through_trim(
    m: Seq<(Seq<Seq<char>>, LeafView)>,
    allowed: spec_fn(Seq<Seq<char>>) -> bool,
)
    requires
        paths_within(m, allowed),
        allowed(seq!["target"@]),
    ensures
        paths_within(pruned_targets(without_extra_targets(m)), allowed),
{
    lemma_removed_under_within(m, seq!["dev-dependencies"@], allowed);
    let a = removed_under(m, seq!["dev-dependencies"@]);
    lemma_removed_under_within(a, seq!["bench"@], allowed);
    let b = removed_under(a, seq!["bench"@]);
    lemma_removed_under_within(b, seq!["bin"@], allowed);
    let c = removed_under(b, seq!["bin"@]);
    lemma_removed_under_within(c, seq!["example"@], allowed);
    let d = removed_under(c, seq!["example"@]);
    lemma_removed_under_within(d, seq!["test"@], allowed);
    lemma_pruned_within(without_extra_targets(m), allowed);
}

/// A property of paths that holds of every entry of Tokio's manifest, and of
/// every entry the writer adds, holds of every entry of the written manifest.
pub proof fn lemma_within_written(
    m: Seq<(Seq<Seq<char>>, LeafView)>,
    features: Seq<Feature>,
    source_role: Role,
    dependency_role: Role,
    version: Seq<char>,
    rust_version: Seq<char>,
    allowed: spec_fn(Seq<Seq<char>>) -> bool,
)
    requires
        patched_manifest(m, features, source_role, dependency_role, version, rust_version) is Ok,
        paths_within(m, allowed),
        allowed(seq!["features"@]),
        forall|i: int| 0 <= i < features.len() ==> allowed(seq!["features"@, (#[trigger] features[i]).name@]),
        allowed(seq!["package"@]),
        allowed(seq!["package"@, "build"@]),
        allowed(seq!["package"@, "rust-version"@]),
        allowed(seq!["target"@]),
        allowed(seq!["dependencies"@]),
        allowed(seq!["dependencies"@, "telekio-abi"@, "version"@]),
        allowed(seq!["dependencies"@, "telekio-abi"@, "features"@]),
        allowed(seq!["build-dependencies"@, "telekio-build"@, "version"@]),
        dependency_role == Role::Host ==> host_paths_allowed(allowed),
    ensures
        paths_within(
            written(m, features, source_role, dependency_role, version, rust_version),
            allowed,
        ),
{
    lemma_written_steps(m, features, source_role, dependency_role, version, rust_version);
    let fc = crate::package::feature_children(features);
    let f = seq!["features"@];
    if fc.len() == 0 {
        assert forall|e: (Seq<Seq<char>>, LeafView)| #[trigger] has(placed(f, fc), e) implies allowed(
            e.0,
        ) by {
            lemma_placed_has(f, fc, e);
        }
    } else {
        assert forall|i: int| 0 <= i < fc.len() implies allowed(f + (#[trigger] fc[i]).0) by {
            assert(f + fc[i].0 =~= seq!["features"@, features[i].name@]);
        }
        lemma_placed_within(f, fc, allowed);
    }
    lemma_replaced_within(m, f, fc, allowed);
    let m1 = with_features(m, features);
    let one = seq![(Seq::<Seq<char>>::empty(), LeafView::Str("build.rs"@))];
    assert(seq!["package"@, "build"@] + one[0].0 =~= seq!["package"@, "build"@]);
    lemma_placed_within(seq!["package"@, "build"@], one, allowed);
    lemma_replaced_within(m1, seq!["package"@, "build"@], one, allowed);
    let r1 = replaced(m1, seq!["package"@, "build"@], one);
    let two = seq![(Seq::<Seq<char>>::empty(), LeafView::Str(rust_version))];
    assert(seq!["package"@, "rust-version"@] + two[0].0 =~= seq!["package"@, "rust-version"@]);
    lemma_placed_within(seq!["package"@, "rust-version"@], two, allowed);
    lemma_replaced_within(r1, seq!["package"@, "rust-version"@], two, allowed);
    let m2 = with_build_settings(m1, rust_version);
    let p = seq!["package"@];
    lemma_without_key_within(m2, p, "authors"@, allowed);
    let a0 = without_key(m2, p, "authors"@);
    lemma_without_key_within(a0, p, "categories"@, allowed);
    let a1 = without_key(a0, p, "categories"@);
    lemma_without_key_within(a1, p, "homepage"@, allowed);
    let a2 = without_key(a1, p, "homepage"@);
    lemma_without_key_within(a2, p, "keywords"@, allowed);
    let a3 = without_key(a2, p, "keywords"@);
    lemma_without_key_within(a3, p, "metadata"@, allowed);
    let a4 = without_key(a3, p, "metadata"@);
    lemma_without_key_within(a4, p, "readme"@, allowed);
    let a5 = without_key(a4, p, "readme"@);
    lemma_without_key_within(a5, p, "repository"@, allowed);
    lemma_within_through_trim(without_package_metadata(m2), allowed);
    lemma_within_after_trim(trimmed(m2), source_role, dependency_role, version, allowed);
}

/// No dependency of the written manifest comes from a path, when none of Tokio's does.
pub proof fn lemma_written_no_path_dependencies(
    m: Seq<(Seq<Seq<char>>, LeafView)>,
    features: Seq<Feature>,
    source_role: Role,
    dependency_role: Role,
    version: Seq<char>,
    rust_version: Seq<char>,
)
    requires
        patched_manifest(m, features, source_role, dependency_role, version, rust_version) is Ok,
        no_path_dependencies(m, "dependencies"@),
    ensures
        no_path_dependencies(
            written(m, features, source_role, dependency_role, version, rust_version),
            "dependencies"@,
        ),
{
    lemma_keys();
    let allowed = |q: Seq<Seq<char>>|
        !(q.len() >= 3 && q[0] == "dependencies"@ && q[2] == "path"@);
    let deps = seq!["dependencies"@];
    assert forall|e: (Seq<Seq<char>>, LeafView)| #[trigger] has(m, e) implies allowed(e.0) by {
        if !allowed(e.0) {
            let i = choose|i: int| 0 <= i < m.len() && m[i] == e;
            let name = e.0[1];
            assert(e.0.subrange(0, 1) =~= deps);
            assert(is_key_below(m, deps, name));
            assert(e.0.subrange(0, 3) =~= seq!["dependencies"@, name, "path"@]);
            assert(holds(m, seq!["dependencies"@, name, "path"@]));
        }
    }
    assert forall|i: int| 0 <= i < features.len() implies allowed(
        seq!["features"@, (#[trigger] features[i]).name@],
    ) by {}
    lemma_within_written(m, features, source_role, dependency_role, version, rust_version, allowed);
    let done = written(m, features, source_role, dependency_role, version, rust_version);
    assert forall|name: Seq<char>| #[trigger] is_key_below(done, deps, name) implies !holds(
        done,
        seq!["dependencies"@, name, "path"@],
    ) by {
        let path = seq!["dependencies"@, name, "path"@];
        assert forall|q: Seq<Seq<char>>| is_under(path, q) implies !#[trigger] allowed(q) by {
            lemma_under_head(path, q);
        }
        lemma_within_not_holds(done, path, allowed);
    }
}

/// The written manifest pins the build crate's version, and its build
/// dependencies hold nothing else.
pub proof fn lemma_written_build_dependency(m6: Seq<(Seq<Seq<char>>, LeafView)>, version: Seq<char>)
    ensures
        str_at(
            with_build_dependency(m6, version),
            seq!["build-dependencies"@, "telekio-build"@, "version"@],
        ) == Some("="@ + version),
        no_path_dependencies(with_build_dependency(m6, version), "build-dependencies"@),
{
    lemma_keys();
    let bd = seq!["build-dependencies"@];
    let last = seq![(seq!["telekio-build"@, "version"@], LeafView::Str("="@ + version))];
    let done = with_build_dependency(m6, version);
    let q = seq!["build-dependencies"@, "telekio-build"@, "version"@];
    assert(bd + last[0].0 =~= q);
    lemma_replaced_child(m6, bd, last, 0);
    lemma_value_at_only(done, q, LeafView::Str("="@ + version));
    let allowed = |p: Seq<Seq<char>>| is_under(bd, p) ==> p == q;
    assert forall|e: (Seq<Seq<char>>, LeafView)| #[trigger] has(done, e) implies allowed(e.0) by {
        lemma_replaced_has(m6, bd, last, e);
        lemma_placed_has(bd, last, e);
        if has(placed(bd, last), e) {
            let j = choose|j: int| 0 <= j < last.len() && e == (bd + (#[trigger] last[j]).0, last[j].1);
            assert(j == 0);
        }
    }
    assert forall|name: Seq<char>| #[trigger] is_key_below(done, bd, name) implies !holds(
        done,
        seq!["build-dependencies"@, name, "path"@],
    ) by {
        let path = seq!["build-dependencies"@, name, "path"@];
        assert forall|p: Seq<Seq<char>>| is_under(path, p) implies !#[trigger] allowed(p) by {
            lemma_under_head(path, p);
            assert(p.subrange(0, 1) =~= bd);
            if p == q {
                assert(p[2] == "version"@);
            }
        }
        lemma_within_not_holds(done, path, allowed);
    }
}

/// Writing the patch finds every step but the first it needs: the stages are named here.
pub open spec fn stage_m3(
    m: Seq<(Seq<Seq<char>>, LeafView)>,
    features: Seq<Feature>,
    rust_version: Seq<char>,
) -> Seq<(Seq<Seq<char>>, LeafView)> {
    trimmed(with_build_settings(with_features(m, features), rust_version))
}

pub open spec fn stage_m5(
    m: Seq<(Seq<Seq<char>>, LeafView)>,
    features: Seq<Feature>,
    source_role: Role,
    dependency_role: Role,
    version: Seq<char>,
    rust_version: Seq<char>,
) -> Seq<(Seq<Seq<char>>, LeafView)> {
    with_abi(
        forwarded_if(stage_m3(m, features, rust_version), dependency_role == Role::Host),
        source_role,
        version,
    )
}

pub open spec fn stage_m6(
    m: Seq<(Seq<Seq<char>>, LeafView)>,
    features: Seq<Feature>,
    source_role: Role,
    dependency_role: Role,
    version: Seq<char>,
    rust_version: Seq<char>,
) -> Seq<(Seq<Seq<char>>, LeafView)> {
    with_host_if(
        stage_m5(m, features, source_role, dependency_role, version, rust_version),
        dependency_role == Role::Host,
        version,
    )
}

/// The written manifest's dependency on the ABI asks for the source's role,
/// and no dependency on the host runtime stays among its dependencies.
pub proof fn lemma_written_abi(
    m: Seq<(Seq<Seq<char>>, LeafView)>,
    features: Seq<Feature>,
    source_role: Role,
    dependency_role: Role,
    version: Seq<char>,
    rust_version: Seq<char>,
)
    requires
        patched_manifest(m, features, source_role, dependency_role, version, rust_version) is Ok,
    ensures
        ({
            let done = written(m, features, source_role, dependency_role, version, rust_version);
            &&& array_has_str(
                done,
                seq!["dependencies"@, "telekio-abi"@, "features"@],
                source_role.spec_name(),
            )
            &&& !holds(done, seq!["dependencies"@, "telekio-host"@])
        }),
{
    lemma_keys();
    lemma_written_steps(m, features, source_role, dependency_role, version, rust_version);
    let host = dependency_role == Role::Host;
    let m4 = forwarded_if(stage_m3(m, features, rust_version), host);
    let abi = seq!["dependencies"@, "telekio-abi"@];
    let children = crate::package::registry_children(Some(source_role), version);
    let c1 = replaced(m4, abi, children);
    let q = seq!["dependencies"@, "telekio-abi"@, "features"@];
    assert(abi + children[1].0 =~= q);
    assert(children[0].0 != children[1].0) by {
        assert(children[0].0[0] != children[1].0[0]);
    }
    lemma_replaced_child(m4, abi, children, 1);
    let m5 = stage_m5(m, features, source_role, dependency_role, version, rust_version);
    let m6 = stage_m6(m, features, source_role, dependency_role, version, rust_version);
    let done = written(m, features, source_role, dependency_role, version, rust_version);
    let region = |p: Seq<Seq<char>>| p == q;
    lemma_without_key_untouched(c1, seq!["dependencies"@], "telekio-host"@, region);
    if host {
        lemma_host_added_frame(m5, version, region);
    }
    let bd = seq!["build-dependencies"@];
    assert forall|p: Seq<Seq<char>>| #[trigger] region(p) implies !is_under(bd, p) && p
        != bd.drop_last() by {
        if is_under(bd, p) {
            lemma_under_head(bd, p);
        }
    }
    lemma_replaced_frame(
        m6,
        bd,
        seq![(seq!["telekio-build"@, "version"@], LeafView::Str("="@ + version))],
        region,
    );
    lemma_agree_chain(c1, m5, m6, region);
    lemma_agree_chain(c1, m6, done, region);
    let v = LeafView::Array(seq![ItemView::Str(source_role.spec_name())]);
    assert(region(q));
    assert forall|e: (Seq<Seq<char>>, LeafView)|
        has(done, e) && e.0 == q && !(e.1 is EmptyTable) implies e.1 == v by {
        assert(region(e.0));
    }
    lemma_value_at_only(done, q, v);
    assert(seq![ItemView::Str(source_role.spec_name())][0] == ItemView::Str(source_role.spec_name()));
    let th = seq!["dependencies"@].push("telekio-host"@);
    assert(th =~= seq!["dependencies"@, "telekio-host"@]);
    lemma_without_key_clears(c1, seq!["dependencies"@], "telekio-host"@);
    let allowed = |p: Seq<Seq<char>>| !is_under(th, p);
    if host {
        assert(host_paths_allowed(allowed)) by {
            assert forall|p: Seq<Seq<char>>| is_under(th, p) && p.len() > 0 implies p[0] != "target"@ by {
                lemma_under_head(th, p);
            }
            assert(!is_under(th, seq!["target"@]));
            assert(!is_under(th, seq!["target"@, native_target()])) by {
                if is_under(th, seq!["target"@, native_target()]) {
                    lemma_under_head(th, seq!["target"@, native_target()]);
                }
            }
            assert(!is_under(th, seq!["target"@, native_target(), "dependencies"@])) by {
                if is_under(th, seq!["target"@, native_target(), "dependencies"@]) {
                    lemma_under_head(th, seq!["target"@, native_target(), "dependencies"@]);
                }
            }
            assert(!is_under(th, host_path().push("version"@))) by {
                if is_under(th, host_path().push("version"@)) {
                    lemma_under_head(th, host_path().push("version"@));
                }
            }
            assert(!is_under(th, host_path().push("default-features"@))) by {
                if is_under(th, host_path().push("default-features"@)) {
                    lemma_under_head(th, host_path().push("default-features"@));
                }
            }
        }
        lemma_host_added_within(m5, version, allowed);
    }
    let last = seq![(seq!["telekio-build"@, "version"@], LeafView::Str("="@ + version))];
    assert(bd + last[0].0 =~= seq!["build-dependencies"@, "telekio-build"@, "version"@]);
    assert(allowed(bd + last[0].0)) by {
        if is_under(th, bd + last[0].0) {
            lemma_under_head(th, bd + last[0].0);
        }
    }
    lemma_placed_within(bd, last, allowed);
    lemma_replaced_within(m6, bd, last, allowed);
    assert forall|p: Seq<Seq<char>>| is_under(th, p) implies !#[trigger] allowed(p) by {}
    lemma_within_not_holds(done, th, allowed);
}

/// What the writer adds never lies below the development dependencies or the
/// extra targets.
proof fn lemma_writer_avoids_root(root: Seq<char>, allowed: spec_fn(Seq<Seq<char>>) -> bool)
    requires
        root == "dev-dependencies"@ || root == "bench"@ || root == "bin"@ || root == "example"@
            || root == "test"@,
        forall|q: Seq<Seq<char>>| #[trigger] allowed(q) == !is_under(seq![root], q),
    ensures
        allowed(seq!["target"@]),
        allowed(seq!["dependencies"@]),
        allowed(seq!["dependencies"@, "telekio-abi"@, "version"@]),
        allowed(seq!["dependencies"@, "telekio-abi"@, "features"@]),
        allowed(seq!["build-dependencies"@, "telekio-build"@, "version"@]),
        host_paths_allowed(allowed),
{
    lemma_keys();
    let r = seq![root];
    assert forall|q: Seq<Seq<char>>| q.len() > 0 && (q[0] == "target"@ || q[0] == "dependencies"@
        || q[0] == "build-dependencies"@) implies allowed(q) by {
        if is_under(r, q) {
            lemma_under_head(r, q);
        }
    }
    assert(seq!["target"@][0] == "target"@);
    assert(seq!["dependencies"@][0] == "dependencies"@);
    assert(seq!["dependencies"@, "telekio-abi"@, "version"@][0] == "dependencies"@);
    assert(seq!["dependencies"@, "telekio-abi"@, "features"@][0] == "dependencies"@);
    assert(seq!["build-dependencies"@, "telekio-build"@, "version"@][0] == "build-dependencies"@);
    assert(seq!["target"@, native_target()][0] == "target"@);
    assert(seq!["target"@, native_target(), "dependencies"@][0] == "target"@);
    assert(host_path().push("version"@)[0] == "target"@);
    assert(host_path().push("default-features"@)[0] == "target"@);
}

/// The written manifest has no development dependencies and no extra targets.
pub proof fn lemma_written_without_extra_targets(
    m: Seq<(Seq<Seq<char>>, LeafView)>,
    features: Seq<Feature>,
    source_role: Role,
    dependency_role: Role,
    version: Seq<char>,
    rust_version: Seq<char>,
    root: Seq<char>,
)
    requires
        patched_manifest(m, features, source_role, dependency_role, version, rust_version) is Ok,
        root == "dev-dependencies"@ || root == "bench"@ || root == "bin"@ || root == "example"@
            || root == "test"@,
    ensures
        !holds(
            written(m, features, source_role, dependency_role, version, rust_version),
            seq![root],
        ),
{
    lemma_keys();
    lemma_written_steps(m, features, source_role, dependency_role, version, rust_version);
    let r = seq![root];
    let allowed = |q: Seq<Seq<char>>| !is_under(r, q);
    lemma_writer_avoids_root(root, allowed);
    let x = without_package_metadata(with_build_settings(with_features(m, features), rust_version));
    let b0 = removed_under(x, seq!["dev-dependencies"@]);
    let b1 = removed_under(b0, seq!["bench"@]);
    let b2 = removed_under(b1, seq!["bin"@]);
    let b3 = removed_under(b2, seq!["example"@]);
    let b4 = removed_under(b3, seq!["test"@]);
    assert(b4 == without_extra_targets(x));
    if root == "dev-dependencies"@ {
        lemma_removed_under_clears(x, r);
        lemma_removed_under_within(b0, seq!["bench"@], allowed);
        lemma_removed_under_within(b1, seq!["bin"@], allowed);
        lemma_removed_under_within(b2, seq!["example"@], allowed);
        lemma_removed_under_within(b3, seq!["test"@], allowed);
    } else if root == "bench"@ {
        lemma_removed_under_clears(b0, r);
        lemma_removed_under_within(b1, seq!["bin"@], allowed);
        lemma_removed_under_within(b2, seq!["example"@], allowed);
        lemma_removed_under_within(b3, seq!["test"@], allowed);
    } else if root == "bin"@ {
        lemma_removed_under_clears(b1, r);
        lemma_removed_under_within(b2, seq!["example"@], allowed);
        lemma_removed_under_within(b3, seq!["test"@], allowed);
    } else if root == "example"@ {
        lemma_removed_under_clears(b2, r);
        lemma_removed_under_within(b3, seq!["test"@], allowed);
    } else {
        lemma_removed_under_clears(b3, r);
    }
    lemma_pruned_within(b4, allowed);
    lemma_within_after_trim(
        stage_m3(m, features, rust_version),
        source_role,
        dependency_role,
        version,
        allowed,
    );
    assert forall|q: Seq<Seq<char>>| is_under(r, q) implies !#[trigger] allowed(q) by {}
    lemma_within_not_holds(
        written(m, features, source_role, dependency_role, version, rust_version),
        r,
        allowed,
    );
}

/// The written manifest keeps its package table, without the package's metadata.
pub proof fn lemma_written_package(
    m: Seq<(Seq<Seq<char>>, LeafView)>,
    features: Seq<Feature>,
    source_role: Role,
    dependency_role: Role,
    version: Seq<char>,
    rust_version: Seq<char>,
)
    requires
        patched_manifest(m, features, source_role, dependency_role, version, rust_version) is Ok,
    ensures
        ({
            let done = written(m, features, source_role, dependency_role, version, rust_version);
            is_table(done, seq!["package"@]) && !holds(done, seq!["package"@, "metadata"@])
        }),
{
    lemma_keys();
    lemma_written_steps(m, features, source_role, dependency_role, version, rust_version);
    lemma_written_rust_version(m, features, source_role, dependency_role, version, rust_version);
    let done = written(m, features, source_role, dependency_role, version, rust_version);
    let rv = (seq!["package"@, "rust-version"@], LeafView::Str(rust_version));
    assert(rv.0.subrange(0, 1) =~= seq!["package"@]);
    assert(table_witness(seq!["package"@], rv));
    lemma_is_table_has(done, seq!["package"@]);
    let md = seq!["package"@].push("metadata"@);
    assert(md =~= seq!["package"@, "metadata"@]);
    let allowed = |q: Seq<Seq<char>>| !is_under(md, q);
    let m2 = with_build_settings(with_features(m, features), rust_version);
    let p = seq!["package"@];
    let a0 = without_key(m2, p, "authors"@);
    let a1 = without_key(a0, p, "categories"@);
    let a2 = without_key(a1, p, "homepage"@);
    let a3 = without_key(a2, p, "keywords"@);
    let a4 = without_key(a3, p, "metadata"@);
    let a5 = without_key(a4, p, "readme"@);
    let a6 = without_key(a5, p, "repository"@);
    assert(a6 == without_package_metadata(m2));
    lemma_without_key_clears(a3, p, "metadata"@);
    assert(allowed(p)) by {
        assert(p.len() < md.len());
    }
    lemma_without_key_within(a4, p, "readme"@, allowed);
    lemma_without_key_within(a5, p, "repository"@, allowed);
    assert forall|q: Seq<Seq<char>>| q.len() > 0 && q[0] != "package"@ implies #[trigger] allowed(q) by {
        if is_under(md, q) {
            lemma_under_head(md, q);
        }
    }
    assert(seq!["target"@][0] != "package"@);
    lemma_within_through_trim(a6, allowed);
    assert(seq!["dependencies"@][0] != "package"@);
    assert(seq!["dependencies"@, "telekio-abi"@, "version"@][0] != "package"@);
    assert(seq!["dependencies"@, "telekio-abi"@, "features"@][0] != "package"@);
    assert(seq!["build-dependencies"@, "telekio-build"@, "version"@][0] != "package"@);
    assert(seq!["target"@, native_target()][0] != "package"@);
    assert(seq!["target"@, native_target(), "dependencies"@][0] != "package"@);
    assert(host_path().push("version"@)[0] != "package"@);
    assert(host_path().push("default-features"@)[0] != "package"@);
    lemma_within_after_trim(
        stage_m3(m, features, rust_version),
        source_role,
        dependency_role,
        version,
        allowed,
    );
    assert forall|q: Seq<Seq<char>>| is_under(md, q) implies !#[trigger] allowed(q) by {}
    lemma_within_not_holds(done, md, allowed);
}

/// No target of the written manifest has development dependencies.
pub proof fn lemma_written_no_target_dev_dependencies(
    m: Seq<(Seq<Seq<char>>, LeafView)>,
    features: Seq<Feature>,
    source_role: Role,
    dependency_role: Role,
    version: Seq<char>,
    rust_version: Seq<char>,
)
    requires
        patched_manifest(m, features, source_role, dependency_role, version, rust_version) is Ok,
    ensures
        crate::package::no_target_dev_dependencies(
            written(m, features, source_role, dependency_role, version, rust_version),
        ),
{
    lemma_keys();
    lemma_written_steps(m, features, source_role, dependency_role, version, rust_version);
    let allowed = |q: Seq<Seq<char>>|
        !(q.len() >= 3 && q[0] == "target"@ && q[2] == "dev-dependencies"@);
    let y = without_extra_targets(
        without_package_metadata(with_build_settings(with_features(m, features), rust_version)),
    );
    let t = seq!["target"@];
    if is_table(y, t) {
        let keep = |e: (Seq<Seq<char>>, LeafView)| !is_target_dev_entry(e);
        let rest = keep_entries(y, keep);
        assert forall|e: (Seq<Seq<char>>, LeafView)| #[trigger] has(pruned_targets(y), e) implies allowed(
            e.0,
        ) by {
            lemma_keep_has(y, keep, e);
            if !holds(rest, t) {
                lemma_push_has(rest, (t, LeafView::EmptyTable), e);
            }
        }
    } else {
        assert forall|e: (Seq<Seq<char>>, LeafView)| #[trigger] has(y, e) implies allowed(e.0) by {
            if !allowed(e.0) {
                assert(e.0.subrange(0, 1) =~= t);
                assert(table_witness(t, e));
                lemma_is_table_has(y, t);
            }
        }
    }
    assert(host_paths_allowed(allowed)) by {
        assert(host_path().push("version"@)[2] == "dependencies"@);
        assert(host_path().push("default-features"@)[2] == "dependencies"@);
        assert(seq!["target"@, native_target(), "dependencies"@][2] == "dependencies"@);
    }
    assert(seq!["dependencies"@, "telekio-abi"@, "version"@][0] == "dependencies"@);
    assert(seq!["dependencies"@, "telekio-abi"@, "features"@][0] == "dependencies"@);
    assert(seq!["build-dependencies"@, "telekio-build"@, "version"@][0] == "build-dependencies"@);
    lemma_within_after_trim(
        stage_m3(m, features, rust_version),
        source_role,
        dependency_role,
        version,
        allowed,
    );
    let done = written(m, features, source_role, dependency_role, version, rust_version);
    assert forall|name: Seq<char>| #[trigger] is_key_below(done, t, name) implies !(is_table(
        done,
        seq!["target"@, name],
    ) && holds(done, seq!["target"@, name, "dev-dependencies"@])) by {
        let path = seq!["target"@, name, "dev-dependencies"@];
        assert forall|q: Seq<Seq<char>>| is_under(path, q) implies !#[trigger] allowed(q) by {
            lemma_under_head(path, q);
        }
        lemma_within_not_holds(done, path, allowed);
    }
}

/// The written manifest's native target depends on the host runtime, without its
/// default features, exactly when its dependencies use the host.
pub proof fn lemma_written_host(
    m: Seq<(Seq<Seq<char>>, LeafView)>,
    features: Seq<Feature>,
    source_role: Role,
    dependency_role: Role,
    version: Seq<char>,
    rust_version: Seq<char>,
)
    requires
        patched_manifest(m, features, source_role, dependency_role, version, rust_version) is Ok,
        dependency_role == Role::Guest ==> !holds(m, host_path()),
    ensures
        ({
            let done = written(m, features, source_role, dependency_role, version, rust_version);
            &&& crate::package::has_host_dependency(done) == (dependency_role == Role::Host)
            &&& crate::package::has_host_dependency(done) ==> bool_at(
                done,
                host_path().push("default-features"@),
            ) == Some(false)
        }),
{
    lemma_keys();
    lemma_written_steps(m, features, source_role, dependency_role, version, rust_version);
    let done = written(m, features, source_role, dependency_role, version, rust_version);
    let hp = host_path();
    if dependency_role == Role::Guest {
        let allowed = |q: Seq<Seq<char>>| !is_under(hp, q);
        lemma_holds_has(m, hp);
        assert forall|e: (Seq<Seq<char>>, LeafView)| #[trigger] has(m, e) implies allowed(e.0) by {}
        assert forall|q: Seq<Seq<char>>| q.len() > 0 && q[0] != "target"@ implies #[trigger] allowed(q) by {
            if is_under(hp, q) {
                lemma_under_head(hp, q);
            }
        }
        assert forall|i: int| 0 <= i < features.len() implies allowed(
            seq!["features"@, (#[trigger] features[i]).name@],
        ) by {
            assert(seq!["features"@, features[i].name@][0] == "features"@);
        }
        assert(seq!["features"@][0] == "features"@);
        assert(seq!["package"@][0] == "package"@);
        assert(seq!["package"@, "build"@][0] == "package"@);
        assert(seq!["package"@, "rust-version"@][0] == "package"@);
        assert(allowed(seq!["target"@])) by {
            assert(seq!["target"@].len() < hp.len());
        }
        assert(seq!["dependencies"@][0] == "dependencies"@);
        assert(seq!["dependencies"@, "telekio-abi"@, "version"@][0] == "dependencies"@);
        assert(seq!["dependencies"@, "telekio-abi"@, "features"@][0] == "dependencies"@);
        assert(seq!["build-dependencies"@, "telekio-build"@, "version"@][0] == "build-dependencies"@);
        lemma_within_written(m, features, source_role, dependency_role, version, rust_version, allowed);
        assert forall|q: Seq<Seq<char>>| is_under(hp, q) implies !#[trigger] allowed(q) by {}
        lemma_within_not_holds(done, hp, allowed);
    } else {
        let m5 = stage_m5(m, features, source_role, dependency_role, version, rust_version);
        let t = seq!["target"@];
        let tn = seq!["target"@, native_target()];
        let tnd = seq!["target"@, native_target(), "dependencies"@];
        let a = ensured_table(m5, t)->0;
        let b = ensured_table(a, tn)->0;
        let c = ensured_table(b, tnd)->0;
        let children = host_children(version);
        let m6 = replaced(c, hp, children);
        assert(stage_m6(m, features, source_role, dependency_role, version, rust_version) == m6);
        assert(children[0].0 != children[1].0) by {
            assert(children[0].0[0] != children[1].0[0]);
        }
        lemma_replaced_child(c, hp, children, 0);
        lemma_replaced_child(c, hp, children, 1);
        let hv = hp + children[0].0;
        let hd = hp + children[1].0;
        assert(hd =~= hp.push("default-features"@));
        let region = |q: Seq<Seq<char>>| q == hv || q == hd;
        let bd = seq!["build-dependencies"@];
        assert forall|q: Seq<Seq<char>>| #[trigger] region(q) implies !is_under(bd, q) && q
            != bd.drop_last() by {
            assert(q[0] == "target"@);
            if is_under(bd, q) {
                lemma_under_head(bd, q);
            }
        }
        lemma_replaced_frame(
            m6,
            bd,
            seq![(seq!["telekio-build"@, "version"@], LeafView::Str("="@ + version))],
            region,
        );
        let ev = (hv, children[0].1);
        assert(region(ev.0));
        assert(has(done, ev));
        assert(ev.0.subrange(0, 1) =~= t);
        assert(ev.0.subrange(0, 2) =~= tn);
        assert(ev.0.subrange(0, 3) =~= tnd);
        assert(ev.0.subrange(0, 4) =~= hp);
        assert(table_witness(t, ev));
        assert(table_witness(tn, ev));
        assert(table_witness(tnd, ev));
        lemma_is_table_has(done, t);
        lemma_is_table_has(done, tn);
        lemma_is_table_has(done, tnd);
        lemma_holds_has(done, hp);
        assert(region(hd));
        assert forall|e: (Seq<Seq<char>>, LeafView)|
            has(done, e) && e.0 == hd && !(e.1 is EmptyTable) implies e.1 == LeafView::Bool(false) by {
            assert(region(e.0));
        }
        lemma_value_at_only(done, hd, LeafView::Bool(false));
    }
}

/// A path of the features table.
pub open spec fn in_features(q: Seq<Seq<char>>) -> bool {
    q.len() >= 1 && q[0] == "features"@
}

/// The features table stays as it is from the moment it is written until the
/// manifest is trimmed.
pub proof fn lemma_features_kept_to_trim(m1: Seq<(Seq<Seq<char>>, LeafView)>, rust_version: Seq<char>)
    ensures
        agree(m1, trimmed(with_build_settings(m1, rust_version)), |q: Seq<Seq<char>>| in_features(q)),
{
    lemma_keys();
    let region = |q: Seq<Seq<char>>| in_features(q);
    let pb = seq!["package"@, "build"@];
    let prv = seq!["package"@, "rust-version"@];
    assert(pb.drop_last() =~= seq!["package"@]);
    assert(prv.drop_last() =~= seq!["package"@]);
    assert forall|q: Seq<Seq<char>>| #[trigger] region(q) implies !is_under(pb, q) && q
        != pb.drop_last() && !is_under(prv, q) && q != prv.drop_last() by {
        if is_under(pb, q) {
            lemma_under_head(pb, q);
        }
        if is_under(prv, q) {
            lemma_under_head(prv, q);
        }
        assert(seq!["package"@][0] == "package"@);
    }
    let one = seq![(Seq::<Seq<char>>::empty(), LeafView::Str("build.rs"@))];
    lemma_replaced_frame(m1, pb, one, region);
    let r1 = replaced(m1, pb, one);
    lemma_replaced_frame(r1, prv, seq![(Seq::<Seq<char>>::empty(), LeafView::Str(rust_version))], region);
    let m2 = with_build_settings(m1, rust_version);
    lemma_agree_chain(m1, r1, m2, region);
    let p = seq!["package"@];
    assert forall|q: Seq<Seq<char>>| #[trigger] region(q) implies q != p && !(q.len() >= 2 && q[0]
        == p[0]) by {
        assert(p[0] == "package"@);
    }
    lemma_without_key_untouched(m2, p, "authors"@, region);
    let a0 = without_key(m2, p, "authors"@);
    lemma_without_key_untouched(a0, p, "categories"@, region);
    let a1 = without_key(a0, p, "categories"@);
    lemma_without_key_untouched(a1, p, "homepage"@, region);
    let a2 = without_key(a1, p, "homepage"@);
    lemma_without_key_untouched(a2, p, "keywords"@, region);
    let a3 = without_key(a2, p, "keywords"@);
    lemma_without_key_untouched(a3, p, "metadata"@, region);
    let a4 = without_key(a3, p, "metadata"@);
    lemma_without_key_untouched(a4, p, "readme"@, region);
    let a5 = without_key(a4, p, "readme"@);
    lemma_without_key_untouched(a5, p, "repository"@, region);
    let a6 = without_key(a5, p, "repository"@);
    assert(a6 == without_package_metadata(m2));
    lemma_agree_chain(m2, a0, a1, region);
    lemma_agree_chain(m2, a1, a2, region);
    lemma_agree_chain(m2, a2, a3, region);
    lemma_agree_chain(m2, a3, a4, region);
    lemma_agree_chain(m2, a4, a5, region);
    lemma_agree_chain(m2, a5, a6, region);
    lemma_removed_root_untouched(a6, "dev-dependencies"@, region);
    let b0 = removed_under(a6, seq!["dev-dependencies"@]);
    lemma_removed_root_untouched(b0, "bench"@, region);
    let b1 = removed_under(b0, seq!["bench"@]);
    lemma_removed_root_untouched(b1, "bin"@, region);
    let b2 = removed_under(b1, seq!["bin"@]);
    lemma_removed_root_untouched(b2, "example"@, region);
    let b3 = removed_under(b2, seq!["example"@]);
    lemma_removed_root_untouched(b3, "test"@, region);
    let b4 = removed_under(b3, seq!["test"@]);
    assert(b4 == without_extra_targets(a6));
    lemma_agree_chain(m2, a6, b0, region);
    lemma_agree_chain(m2, b0, b1, region);
    lemma_agree_chain(m2, b1, b2, region);
    lemma_agree_chain(m2, b2, b3, region);
    lemma_agree_chain(m2, b3, b4, region);
    lemma_pruned_frame(b4, region);
    lemma_agree_chain(m2, b4, pruned_targets(b4), region);
    lemma_agree_chain(m1, m2, pruned_targets(b4), region);
}

/// The features table stays as it is once it has been forwarded.
pub proof fn lemma_features_kept_after_forward(
    m4: Seq<(Seq<Seq<char>>, LeafView)>,
    source_role: Role,
    dependency_role: Role,
    version: Seq<char>,
)
    requires
        dependency_role == Role::Host ==> host_dependency_added(
            with_abi(m4, source_role, version),
            version,
        ) is Ok,
    ensures
        ({
            let host = dependency_role == Role::Host;
            agree(
                m4,
                with_build_dependency(
                    with_host_if(with_abi(m4, source_role, version), host, version),
                    version,
                ),
                |q: Seq<Seq<char>>| in_features(q),
            )
        }),
{
    lemma_keys();
    let host = dependency_role == Role::Host;
    let region = |q: Seq<Seq<char>>| in_features(q);
    let abi = seq!["dependencies"@, "telekio-abi"@];
    assert(abi.drop_last() =~= seq!["dependencies"@]);
    assert forall|q: Seq<Seq<char>>| #[trigger] region(q) implies !is_under(abi, q) && q
        != abi.drop_last() by {
        if is_under(abi, q) {
            lemma_under_head(abi, q);
        }
        assert(seq!["dependencies"@][0] == "dependencies"@);
    }
    let children = crate::package::registry_children(Some(source_role), version);
    lemma_replaced_frame(m4, abi, children, region);
    let c1 = replaced(m4, abi, children);
    assert forall|q: Seq<Seq<char>>| #[trigger] region(q) implies q != seq!["dependencies"@] && !(q.len()
        >= 2 && q[0] == seq!["dependencies"@][0] && q[1] == "telekio-host"@) by {
        assert(seq!["dependencies"@][0] == "dependencies"@);
    }
    lemma_without_key_untouched(c1, seq!["dependencies"@], "telekio-host"@, region);
    let m5 = with_abi(m4, source_role, version);
    lemma_agree_chain(m4, c1, m5, region);
    if host {
        lemma_host_added_frame(m5, version, region);
    }
    let m6 = with_host_if(m5, host, version);
    lemma_agree_chain(m4, m5, m6, region);
    let bd = seq!["build-dependencies"@];
    assert forall|q: Seq<Seq<char>>| #[trigger] region(q) implies !is_under(bd, q) && q
        != bd.drop_last() by {
        if is_under(bd, q) {
            lemma_under_head(bd, q);
        }
    }
    lemma_replaced_frame(
        m6,
        bd,
        seq![(seq!["telekio-build"@, "version"@], LeafView::Str("="@ + version))],
        region,
    );
    lemma_agree_chain(m4, m6, with_build_dependency(m6, version), region);
}

/// No two features share a name (they come from the keys of one table).
pub open spec fn distinct_names(features: Seq<Feature>) -> bool {
    forall|i: int, j: int|
        0 <= i < features.len() && 0 <= j < features.len() && i != j ==> (#[trigger] features[i]).name@
            != (#[trigger] features[j]).name@
}

/// The feature already enables its own counterpart in the host runtime.
pub open spec fn enables_own_host(f: Feature) -> bool {
    crate::package::string_items(f.enables@).contains(ItemView::Str("telekio-host/"@ + f.name@))
}

/// What an entry becomes when the features are forwarded, if they are.
pub open spec fn carried(x: (Seq<Seq<char>>, LeafView), host: bool) -> (Seq<Seq<char>>, LeafView) {
    if host {
        forwarded_entry(x)
    } else {
        x
    }
}

pub proof fn lemma_carried_has(m3: Seq<(Seq<Seq<char>>, LeafView)>, host: bool, e: (Seq<Seq<char>>, LeafView))
    requires
        host ==> forwarded(m3) is Some,
    ensures
        has(forwarded_if(m3, host), e) <==> exists|x: (Seq<Seq<char>>, LeafView)|
            #[trigger] has(m3, x) && carried(x, host) == e,
{
    if host {
        let out = forwarded(m3)->0;
        if has(out, e) {
            let i = choose|i: int| 0 <= i < out.len() && out[i] == e;
            assert(out[i] == forwarded_entry(m3[i]));
            assert(has(m3, m3[i]));
            assert(carried(m3[i], host) == e);
        }
        if exists|x: (Seq<Seq<char>>, LeafView)| #[trigger] has(m3, x) && carried(x, host) == e {
            let x = choose|x: (Seq<Seq<char>>, LeafView)| #[trigger] has(m3, x) && carried(x, host) == e;
            let i = choose|i: int| 0 <= i < m3.len() && m3[i] == x;
            assert(out[i] == e);
        }
    } else {
        if has(m3, e) {
            assert(carried(e, host) == e);
        }
    }
}

/// The features table of the manifest, once written, holds exactly the resolved features.
pub proof fn lemma_features_placed(
    m: Seq<(Seq<Seq<char>>, LeafView)>,
    features: Seq<Feature>,
    x: (Seq<Seq<char>>, LeafView),
)
    requires
        in_features(x.0),
    ensures
        has(with_features(m, features), x) <==> has(
            placed(seq!["features"@], crate::package::feature_children(features)),
            x,
        ),
{
    let f = seq!["features"@];
    lemma_replaced_has(m, f, crate::package::feature_children(features), x);
    assert(x.0.subrange(0, 1) =~= f);
}

/// What a written feature entry is.
pub proof fn lemma_feature_entry(features: Seq<Feature>, x: (Seq<Seq<char>>, LeafView))
    requires
        has(placed(seq!["features"@], crate::package::feature_children(features)), x),
        x.0.len() > 1,
    ensures
        exists|i: int|
            0 <= i < features.len() && x == (
                seq!["features"@, (#[trigger] features[i]).name@],
                LeafView::Array(crate::package::string_items(features[i].enables@)),
            ),
{
    let f = seq!["features"@];
    let fc = crate::package::feature_children(features);
    lemma_placed_has(f, fc, x);
    if fc.len() > 0 {
        let i = choose|i: int| 0 <= i < fc.len() && x == (f + (#[trigger] fc[i]).0, fc[i].1);
        assert(f + fc[i].0 =~= seq!["features"@, features[i].name@]);
    }
}

/// The written features table: present, without the test feature, and each
/// feature but `default` forwarded to the host runtime exactly when the
/// dependencies use the host.
pub proof fn lemma_written_features(
    m: Seq<(Seq<Seq<char>>, LeafView)>,
    features: Seq<Feature>,
    source_role: Role,
    dependency_role: Role,
    version: Seq<char>,
    rust_version: Seq<char>,
)
    requires
        patched_manifest(m, features, source_role, dependency_role, version, rust_version) is Ok,
        distinct_names(features),
        forall|i: int| 0 <= i < features.len() ==> (#[trigger] features[i]).name@ != "telekio-test"@,
        dependency_role == Role::Guest ==> forall|i: int|
            0 <= i < features.len() ==> !enables_own_host(#[trigger] features[i]),
    ensures
        ({
            let done = written(m, features, source_role, dependency_role, version, rust_version);
            &&& is_table(done, seq!["features"@])
            &&& !holds(done, seq!["features"@, "telekio-test"@])
            &&& crate::package::features_forwarded(done, dependency_role == Role::Host)
        }),
{
    lemma_keys();
    lemma_written_steps(m, features, source_role, dependency_role, version, rust_version);
    let host = dependency_role == Role::Host;
    let region = |q: Seq<Seq<char>>| in_features(q);
    let f = seq!["features"@];
    let m1 = with_features(m, features);
    let m3 = stage_m3(m, features, rust_version);
    let m4 = forwarded_if(m3, host);
    let done = written(m, features, source_role, dependency_role, version, rust_version);
    lemma_features_kept_to_trim(m1, rust_version);
    lemma_features_kept_after_forward(m4, source_role, dependency_role, version);
    assert(done == with_build_dependency(
        with_host_if(with_abi(m4, source_role, version), host, version),
        version,
    ));
    // The table is there.
    lemma_is_table_has(m3, f);
    let w = choose|w: (Seq<Seq<char>>, LeafView)| #[trigger] has(m3, w) && table_witness(f, w);
    if is_under(f, w.0) {
        lemma_under_head(f, w.0);
    }
    assert(region(w.0));
    lemma_carried_has(m3, host, carried(w, host));
    assert(carried(w, host).0 == w.0);
    assert(table_witness(f, carried(w, host)));
    assert(has(done, carried(w, host)));
    lemma_is_table_has(done, f);
    // Every features entry of the written manifest comes from a written feature.
    assert forall|e: (Seq<Seq<char>>, LeafView)| #[trigger] has(done, e) && in_features(e.0)
        && e.0.len() > 1 implies exists|i: int|
        0 <= i < features.len() && e == carried(
            (
                seq!["features"@, (#[trigger] features[i]).name@],
                LeafView::Array(crate::package::string_items(features[i].enables@)),
            ),
            host,
        ) by {
        assert(region(e.0));
        assert(has(m4, e));
        lemma_carried_has(m3, host, e);
        let x = choose|x: (Seq<Seq<char>>, LeafView)| #[trigger] has(m3, x) && carried(x, host) == e;
        assert(x.0 == e.0);
        assert(region(x.0));
        assert(has(m1, x));
        lemma_features_placed(m, features, x);
        lemma_feature_entry(features, x);
    }
    // No test feature.
    let ftt = seq!["features"@, "telekio-test"@];
    lemma_holds_has(done, ftt);
    if holds(done, ftt) {
        let e = choose|e: (Seq<Seq<char>>, LeafView)| #[trigger] has(done, e) && is_under(ftt, e.0);
        lemma_under_head(ftt, e.0);
        let i = choose|i: int|
            0 <= i < features.len() && e == carried(
                (
                    seq!["features"@, (#[trigger] features[i]).name@],
                    LeafView::Array(crate::package::string_items(features[i].enables@)),
                ),
                host,
            );
        assert(e.0[1] == features[i].name@);
    }
    // Each feature is forwarded when the host is used, and only then.
    assert forall|name: Seq<char>| #[trigger] is_key_below(done, f, name) implies (name
        == "default"@ || (value_at(done, seq!["features"@, name]) matches Some(LeafView::Array(_))
        && array_has_str(done, seq!["features"@, name], "telekio-host/"@ + name) == host)) by {
        let k = choose|k: int|
            0 <= k < done.len() && is_under(f, #[trigger] done[k].0) && done[k].0.len() > f.len()
                && done[k].0[f.len() as int] == name;
        let e = done[k];
        assert(has(done, e));
        lemma_under_head(f, e.0);
        let i = choose|i: int|
            0 <= i < features.len() && e == carried(
                (
                    seq!["features"@, (#[trigger] features[i]).name@],
                    LeafView::Array(crate::package::string_items(features[i].enables@)),
                ),
                host,
            );
        let q = seq!["features"@, name];
        let x = (q, LeafView::Array(crate::package::string_items(features[i].enables@)));
        assert(features[i].name@ == name);
        if name != "default"@ {
            let v = carried(x, host).1;
            assert(e == carried(x, host));
            assert forall|e2: (Seq<Seq<char>>, LeafView)|
                has(done, e2) && e2.0 == q && !(e2.1 is EmptyTable) implies e2.1 == v by {
                let j = choose|j: int|
                    0 <= j < features.len() && e2 == carried(
                        (
                            seq!["features"@, (#[trigger] features[j]).name@],
                            LeafView::Array(crate::package::string_items(features[j].enables@)),
                        ),
                        host,
                    );
                assert(features[j].name@ == name);
                if j != i {
                    assert(features[i].name@ != features[j].name@);
                }
            }
            assert(!(v is EmptyTable));
            lemma_value_at_only(done, q, v);
            let items = crate::package::string_items(features[i].enables@);
            let s = ItemView::Str("telekio-host/"@ + name);
            if host {
                assert(v == LeafView::Array(items.push(s)));
                assert(items.push(s)[items.len() as int] == s);
            } else {
                assert(v == LeafView::Array(items));
                assert(!enables_own_host(features[i]));
            }
        }
    }
}

/// The text that a build script announces the host runtime by.
pub open spec fn host_cfg() -> Seq<char> {
    "rustc-cfg=telekio_host"@
}

/// The text that a library root re-exports the host runtime by.
pub open spec fn host_use() -> Seq<char> {
    "#[doc(inline)]\npub use telekio_host::*;"@
}

pub proof fn lemma_contains_right(a: Seq<char>, b: Seq<char>, n: Seq<char>)
    requires
        contains_chars(b, n),
    ensures
        contains_chars(a + b, n),
{
    let i = choose|i: int| 0 <= i && i + n.len() <= b.len() && #[trigger] b.subrange(i, i + n.len()) == n;
    assert((a + b).subrange(a.len() + i, a.len() + i + n.len()) =~= b.subrange(i, i + n.len()));
}

pub proof fn lemma_contains_left(a: Seq<char>, b: Seq<char>, n: Seq<char>)
    requires
        contains_chars(a, n),
    ensures
        contains_chars(a + b, n),
{
    let i = choose|i: int| 0 <= i && i + n.len() <= a.len() && #[trigger] a.subrange(i, i + n.len()) == n;
    assert((a + b).subrange(i, i + n.len()) =~= a.subrange(i, i + n.len()));
}

/// A host build script announces the host runtime.
pub proof fn lemma_host_build_announces()
    ensures
        contains_chars(crate::package::build_script_text(Role::Host), host_cfg()),
{
    reveal_strlit("    if (std::env::var_os(\"CARGO_CFG_UNIX\").is_some() || std::env::var_os(\"CARGO_CFG_WINDOWS\").is_some()) && std::env::var_os(\"CARGO_CFG_LOOM\").is_none() {\n        println!(\"cargo::rustc-cfg=telekio_host\");\n        return;\n    }\n");
    reveal_strlit("rustc-cfg=telekio_host");
    let lines = crate::package::host_build_lines();
    assert(lines.subrange(180, 202) =~= host_cfg());
    assert(lines.subrange(180int, 180int + host_cfg().len()) == host_cfg());
    lemma_contains_right(crate::package::build_script_head(), lines, host_cfg());
    lemma_contains_left(
        crate::package::build_script_head() + lines,
        crate::package::build_script_tail(),
        host_cfg(),
    );
}

/// A guest build script does not announce the host runtime: `=` is never
/// followed by `t` in it, as it is in the announcement.
pub proof fn lemma_guest_build_silent()
    ensures
        !contains_chars(crate::package::build_script_text(Role::Guest), host_cfg()),
{
    let t = crate::package::build_script_text(Role::Guest);
    reveal_strlit("// Generated by Telekio. Prepares Tokio for this target.\n\nfn main() {\n    println!(\"cargo::rustc-check-cfg=cfg(telekio_host)\");\n");
    reveal_strlit("");
    reveal_strlit("    let source = telekio_build::prepare_guest().unwrap();\n    println!(\"cargo::rustc-env=TELEKIO_TOKIO_SOURCE={}\", source.join(\"src/lib.rs\").display());\n}\n");
    reveal_strlit("rustc-cfg=telekio_host");
    assert(forall|j: int| 0 <= j < t.len() - 1 ==> !(#[trigger] t[j] == '=' && t[j + 1] == 't'));
    if contains_chars(t, host_cfg()) {
        let i = choose|i: int|
            0 <= i && i + host_cfg().len() <= t.len() && #[trigger] t.subrange(i, i + host_cfg().len())
                == host_cfg();
        assert(t.subrange(i, i + host_cfg().len())[9] == t[i + 9]);
        assert(t.subrange(i, i + host_cfg().len())[10] == t[i + 10]);
    }
}

/// A host library root re-exports the host runtime, whatever precedes it.
pub proof fn lemma_host_root_uses(preamble: Seq<char>)
    ensures
        contains_chars(crate::package::library_root_text(preamble, Role::Host), host_use()),
{
    reveal_strlit("#[cfg(telekio_host)]\n#[doc(inline)]\npub use telekio_host::*;\n\n#[cfg(not(telekio_host))]\ninclude!(env!(\"TELEKIO_TOKIO_SOURCE\"));\n");
    reveal_strlit("#[doc(inline)]\npub use telekio_host::*;");
    let body = crate::package::library_body(Role::Host);
    assert(body.subrange(21, 60) =~= host_use());
    assert(body.subrange(21int, 21int + host_use().len()) == host_use());
    lemma_contains_right(preamble + "// Generated by Telekio. Exposes Tokio for this target.\n\n"@, body, host_use());
}

/// A guest library root re-exports the host runtime only if its preamble does:
/// the re-export begins with `#` and holds no `/`, and what follows the
/// preamble begins with `/` and holds no `#`.
pub proof fn lemma_guest_root_silent(preamble: Seq<char>)
    requires
        !contains_chars(preamble, host_use()),
    ensures
        !contains_chars(crate::package::library_root_text(preamble, Role::Guest), host_use()),
{
    let rest = "// Generated by Telekio. Exposes Tokio for this target.\n\n"@ + crate::package::library_body(Role::Guest);
    let t = crate::package::library_root_text(preamble, Role::Guest);
    assert(t =~= preamble + rest);
    reveal_strlit("// Generated by Telekio. Exposes Tokio for this target.\n\n");
    reveal_strlit("include!(env!(\"TELEKIO_TOKIO_SOURCE\"));\n");
    reveal_strlit("#[doc(inline)]\npub use telekio_host::*;");
    let n = host_use();
    assert(forall|j: int| 0 <= j < rest.len() ==> #[trigger] rest[j] != '#');
    assert(forall|k: int| 0 <= k < n.len() ==> #[trigger] n[k] != '/');
    assert(rest[0] == '/');
    if contains_chars(t, n) {
        let i = choose|i: int| 0 <= i && i + n.len() <= t.len() && #[trigger] t.subrange(i, i + n.len()) == n;
        assert(t.subrange(i, i + n.len())[0] == t[i]);
        if i >= preamble.len() {
            assert(t[i] == rest[i - preamble.len()]);
        } else if i + n.len() > preamble.len() {
            let k = preamble.len() - i;
            assert(t.subrange(i, i + n.len())[k] == t[preamble.len() as int]);
            assert(t[preamble.len() as int] == rest[0]);
        } else {
            assert(preamble.subrange(i, i + n.len()) =~= t.subrange(i, i + n.len()));
        }
    }
}

/// A patch that has just been written is current: the check that decides
/// whether to write the patch again accepts the manifest, build script and
/// library root that writing it produces, for the same roles and the same
/// Telekio release. This holds for every Tokio manifest that the writer
/// accepts, provided that Tokio's dependencies come from registries, that its
/// resolved features have distinct names and none is named `telekio-test`,
/// that for a guest-only patch no feature already enables its host
/// counterpart and no host runtime dependency is already declared, and that
/// for a guest source Tokio's preamble does not itself re-export the host runtime.
pub proof fn written_patch_is_current(
    m: Seq<(Seq<Seq<char>>, LeafView)>,
    features: Seq<Feature>,
    source_role: Role,
    dependency_role: Role,
    version: Seq<char>,
    rust_version: Seq<char>,
    preamble: Seq<char>,
)
    requires
        patched_manifest(m, features, source_role, dependency_role, version, rust_version) is Ok,
        no_path_dependencies(m, "dependencies"@),
        distinct_names(features),
        forall|i: int| 0 <= i < features.len() ==> (#[trigger] features[i]).name@ != "telekio-test"@,
        dependency_role == Role::Guest ==> forall|i: int|
            0 <= i < features.len() ==> !enables_own_host(#[trigger] features[i]),
        dependency_role == Role::Guest ==> !holds(m, host_path()),
        source_role == Role::Guest ==> !contains_chars(preamble, host_use()),
    ensures
        patched_manifest(m, features, source_role, dependency_role, version, rust_version) matches Ok(
            done,
        ) && crate::package::is_current(
            done,
            crate::package::build_script_text(source_role),
            crate::package::library_root_text(preamble, source_role),
            source_role,
            dependency_role,
            version,
            rust_version,
        ),
{
    lemma_written_steps(m, features, source_role, dependency_role, version, rust_version);
    lemma_keys();
    let done = written(m, features, source_role, dependency_role, version, rust_version);
    lemma_written_build_dependency(
        stage_m6(m, features, source_role, dependency_role, version, rust_version),
        version,
    );
    lemma_written_rust_version(m, features, source_role, dependency_role, version, rust_version);
    lemma_written_features(m, features, source_role, dependency_role, version, rust_version);
    lemma_written_abi(m, features, source_role, dependency_role, version, rust_version);
    lemma_written_host(m, features, source_role, dependency_role, version, rust_version);
    lemma_written_no_path_dependencies(
        m,
        features,
        source_role,
        dependency_role,
        version,
        rust_version,
    );
    lemma_written_without_extra_targets(
        m,
        features,
        source_role,
        dependency_role,
        version,
        rust_version,
        "bench"@,
    );
    lemma_written_without_extra_targets(
        m,
        features,
        source_role,
        dependency_role,
        version,
        rust_version,
        "bin"@,
    );
    lemma_written_without_extra_targets(
        m,
        features,
        source_role,
        dependency_role,
        version,
        rust_version,
        "dev-dependencies"@,
    );
    lemma_written_without_extra_targets(
        m,
        features,
        source_role,
        dependency_role,
        version,
        rust_version,
        "example"@,
    );
    lemma_written_without_extra_targets(
        m,
        features,
        source_role,
        dependency_role,
        version,
        rust_version,
        "test"@,
    );
    lemma_written_package(m, features, source_role, dependency_role, version, rust_version);
    lemma_written_no_target_dev_dependencies(
        m,
        features,
        source_role,
        dependency_role,
        version,
        rust_version,
    );
    if source_role == Role::Host {
        lemma_host_build_announces();
        lemma_host_root_uses(preamble);
    } else {
        lemma_guest_build_silent();
        lemma_guest_root_silent(preamble);
    }
}

} // verus!
