//! A guest patch that has just been written is current: the check that decides
//! whether to write it again accepts what the writer produces.
use vstd::prelude::*;

use crate::guest::package::{Role, is_current, patched_manifest};
use crate::guest::version_children;
use crate::manifest::facts::{
    agree, has, lemma_agree_chain, lemma_holds_has, lemma_is_table_has, lemma_keep_has,
    lemma_push_has, lemma_removed_under_clears, lemma_removed_under_within, lemma_replaced_child,
    lemma_replaced_frame, lemma_replaced_within, lemma_value_at_only, lemma_within_not_holds,
    lemma_without_key_clears, lemma_without_key_frame, lemma_without_key_within, paths_within,
    table_witness,
};
use crate::manifest::{
    LeafView, holds, is_key_below, is_table, is_under, keep_entries, removed_under, replaced,
    str_at, without_key,
};
use crate::package::fresh::{
    untouched_after_settings, lemma_keys, lemma_placed_within, lemma_pruned_frame, lemma_pruned_within,
    lemma_removed_root_untouched, lemma_replaced_single, lemma_under_head,
    lemma_within_through_trim, lemma_without_key_untouched, lemma_written_build_dependency,
    trimmed, with_build_dependency, with_build_settings,
};
use crate::package::{
    is_target_dev_entry, no_path_dependencies, no_target_dev_dependencies, pruned_targets,
    without_extra_targets, without_package_metadata,
};

verus! {

/// The manifest after each step of writing the guest patch.
pub open spec fn with_test_feature(m3: Seq<(Seq<Seq<char>>, LeafView)>) -> Seq<
    (Seq<Seq<char>>, LeafView),
> {
    replaced(m3, seq!["features"@, "telekio-test"@], seq![(seq![], LeafView::Array(seq![]))])
}

pub open spec fn with_telekio(m3b: Seq<(Seq<Seq<char>>, LeafView)>, version: Seq<char>) -> Seq<
    (Seq<Seq<char>>, LeafView),
> {
    replaced(m3b, seq!["dependencies"@, "telekio"@], version_children(true, version))
}

pub open spec fn with_host_choice(
    m4: Seq<(Seq<Seq<char>>, LeafView)>,
    role: Role,
    version: Seq<char>,
) -> Seq<(Seq<Seq<char>>, LeafView)> {
    if role == Role::Host {
        replaced(m4, seq!["dependencies"@, "telekio-host"@], version_children(false, version))
    } else {
        without_key(m4, seq!["dependencies"@], "telekio-host"@)
    }
}

/// The steps after the manifest is trimmed.
pub open spec fn guest_tail(
    m3: Seq<(Seq<Seq<char>>, LeafView)>,
    role: Role,
    version: Seq<char>,
) -> Seq<(Seq<Seq<char>>, LeafView)> {
    with_build_dependency(
        with_host_choice(with_telekio(with_test_feature(m3), version), role, version),
        version,
    )
}

pub open spec fn guest_written(
    m: Seq<(Seq<Seq<char>>, LeafView)>,
    role: Role,
    version: Seq<char>,
    rust_version: Seq<char>,
) -> Seq<(Seq<Seq<char>>, LeafView)> {
    guest_tail(trimmed(with_build_settings(m, rust_version)), role, version)
}

pub proof fn lemma_guest_steps(
    m: Seq<(Seq<Seq<char>>, LeafView)>,
    role: Role,
    version: Seq<char>,
    rust_version: Seq<char>,
)
    requires
        patched_manifest(m, role, version, rust_version) is Ok,
    ensures
        is_table(m, seq!["package"@]),
        is_table(trimmed(with_build_settings(m, rust_version)), seq!["features"@]),
        is_table(
            with_test_feature(trimmed(with_build_settings(m, rust_version))),
            seq!["dependencies"@],
        ),
        patched_manifest(m, role, version, rust_version) == Ok::<
            Seq<(Seq<Seq<char>>, LeafView)>,
            crate::package::PatchError,
        >(guest_written(m, role, version, rust_version)),
{
}

/// The steps after trimming leave alone every path outside the dependencies
/// and the build dependencies.
pub proof fn lemma_tail_frame(
    m3b: Seq<(Seq<Seq<char>>, LeafView)>,
    role: Role,
    version: Seq<char>,
    region: spec_fn(Seq<Seq<char>>) -> bool,
)
    requires
        forall|q: Seq<Seq<char>>| #[trigger]
            region(q) ==> q.len() > 0 && q[0] != "dependencies"@ && q[0]
                != "build-dependencies"@,
    ensures
        agree(
            m3b,
            with_build_dependency(
                with_host_choice(with_telekio(m3b, version), role, version),
                version,
            ),
            region,
        ),
{
    let t = seq!["dependencies"@, "telekio"@];
    let h = seq!["dependencies"@, "telekio-host"@];
    let d = seq!["dependencies"@];
    let bd = seq!["build-dependencies"@];
    assert(t.drop_last() =~= d);
    assert(h.drop_last() =~= d);
    assert(d.push("telekio-host"@) =~= h);
    assert(bd.drop_last() =~= Seq::<Seq<char>>::empty());
    assert forall|q: Seq<Seq<char>>| #[trigger] region(q) implies !is_under(t, q) && q
        != t.drop_last() && !is_under(h, q) && q != h.drop_last() && !is_under(bd, q) && q
        != bd.drop_last() by {
        if is_under(t, q) {
            lemma_under_head(t, q);
        }
        if is_under(h, q) {
            lemma_under_head(h, q);
        }
        if is_under(bd, q) {
            lemma_under_head(bd, q);
        }
    }
    lemma_replaced_frame(m3b, t, version_children(true, version), region);
    let m4 = with_telekio(m3b, version);
    if role == Role::Host {
        lemma_replaced_frame(m4, h, version_children(false, version), region);
    } else {
        lemma_without_key_frame(m4, d, "telekio-host"@, region);
    }
    let m5 = with_host_choice(m4, role, version);
    lemma_replaced_frame(
        m5,
        bd,
        seq![(seq!["telekio-build"@, "version"@], LeafView::Str("="@ + version))],
        region,
    );
    lemma_agree_chain(m3b, m4, m5, region);
    lemma_agree_chain(m3b, m5, with_build_dependency(m5, version), region);
}

/// A property of paths that holds of the trimmed manifest, and of every entry
/// that the rest of the writing adds, holds of the written manifest.
pub proof fn lemma_tail_within(
    m3: Seq<(Seq<Seq<char>>, LeafView)>,
    role: Role,
    version: Seq<char>,
    allowed: spec_fn(Seq<Seq<char>>) -> bool,
)
    requires
        paths_within(m3, allowed),
        allowed(seq!["features"@, "telekio-test"@]),
        allowed(seq!["dependencies"@]),
        allowed(seq!["dependencies"@, "telekio"@, "version"@]),
        allowed(seq!["dependencies"@, "telekio"@, "features"@]),
        allowed(seq!["dependencies"@, "telekio-host"@, "version"@]),
        allowed(seq!["build-dependencies"@, "telekio-build"@, "version"@]),
    ensures
        paths_within(guest_tail(m3, role, version), allowed),
{
    let f = seq!["features"@, "telekio-test"@];
    let one = seq![(Seq::<Seq<char>>::empty(), LeafView::Array(seq![]))];
    assert(f + one[0].0 =~= f);
    lemma_placed_within(f, one, allowed);
    lemma_replaced_within(m3, f, one, allowed);
    let m3b = with_test_feature(m3);
    let t = seq!["dependencies"@, "telekio"@];
    let tc = version_children(true, version);
    assert(t + tc[0].0 =~= seq!["dependencies"@, "telekio"@, "version"@]);
    assert(t + tc[1].0 =~= seq!["dependencies"@, "telekio"@, "features"@]);
    lemma_placed_within(t, tc, allowed);
    lemma_replaced_within(m3b, t, tc, allowed);
    let m4 = with_telekio(m3b, version);
    if role == Role::Host {
        let h = seq!["dependencies"@, "telekio-host"@];
        let hc = version_children(false, version);
        assert(h + hc[0].0 =~= seq!["dependencies"@, "telekio-host"@, "version"@]);
        lemma_placed_within(h, hc, allowed);
        lemma_replaced_within(m4, h, hc, allowed);
    } else {
        lemma_without_key_within(m4, seq!["dependencies"@], "telekio-host"@, allowed);
    }
    let m5 = with_host_choice(m4, role, version);
    let bd = seq!["build-dependencies"@];
    let last = seq![(seq!["telekio-build"@, "version"@], LeafView::Str("="@ + version))];
    assert(bd + last[0].0 =~= seq!["build-dependencies"@, "telekio-build"@, "version"@]);
    lemma_placed_within(bd, last, allowed);
    lemma_replaced_within(m5, bd, last, allowed);
}

/// A property of paths that holds of every entry of Tokio's manifest, and of
/// every entry the writer adds, holds of every entry of the written manifest.
pub proof fn lemma_guest_within(
    m: Seq<(Seq<Seq<char>>, LeafView)>,
    role: Role,
    version: Seq<char>,
    rust_version: Seq<char>,
    allowed: spec_fn(Seq<Seq<char>>) -> bool,
)
    requires
        paths_within(m, allowed),
        allowed(seq!["package"@]),
        allowed(seq!["package"@, "build"@]),
        allowed(seq!["package"@, "rust-version"@]),
        allowed(seq!["target"@]),
        allowed(seq!["features"@, "telekio-test"@]),
        allowed(seq!["dependencies"@]),
        allowed(seq!["dependencies"@, "telekio"@, "version"@]),
        allowed(seq!["dependencies"@, "telekio"@, "features"@]),
        allowed(seq!["dependencies"@, "telekio-host"@, "version"@]),
        allowed(seq!["build-dependencies"@, "telekio-build"@, "version"@]),
    ensures
        paths_within(guest_written(m, role, version, rust_version), allowed),
{
    let one = seq![(Seq::<Seq<char>>::empty(), LeafView::Str("build.rs"@))];
    assert(seq!["package"@, "build"@] + one[0].0 =~= seq!["package"@, "build"@]);
    lemma_placed_within(seq!["package"@, "build"@], one, allowed);
    lemma_replaced_within(m, seq!["package"@, "build"@], one, allowed);
    let r1 = replaced(m, seq!["package"@, "build"@], one);
    let two = seq![(Seq::<Seq<char>>::empty(), LeafView::Str(rust_version))];
    assert(seq!["package"@, "rust-version"@] + two[0].0 =~= seq!["package"@, "rust-version"@]);
    lemma_placed_within(seq!["package"@, "rust-version"@], two, allowed);
    lemma_replaced_within(r1, seq!["package"@, "rust-version"@], two, allowed);
    let m2 = with_build_settings(m, rust_version);
    let p = seq!["package"@];
    lemma_without_key_within(m2, p, "authors"@, allowed);
    let a0 = without_key(m2, p, "authors"@);
    lemma_without_key_within(a0, p, "categories"@, allowed);
    let a1 = without_key(a0, p, "categories"@);
    lemma_without_key_within(a1, p, "homepage"@, allowed);
    let a2 = without_key(a1, p, "homepage"@);
    lemma_without_key_within(a2, p, "keywords"@, allowed);
    let a3 = without_key(a2, p, "keywords"@);
    lemma_without_key_within(a3, p, "metadata"@, allowed);
    let a4 = without_key(a3, p, "metadata"@);
    lemma_without_key_within(a4, p, "readme"@, allowed);
    let a5 = without_key(a4, p, "readme"@);
    lemma_without_key_within(a5, p, "repository"@, allowed);
    lemma_within_through_trim(without_package_metadata(m2), allowed);
    lemma_tail_within(trimmed(m2), role, version, allowed);
}

/// Trimming the manifest leaves alone every path that the rest of the writing
/// leaves alone.
pub proof fn lemma_trim_frame(
    m2: Seq<(Seq<Seq<char>>, LeafView)>,
    region: spec_fn(Seq<Seq<char>>) -> bool,
)
    requires
        forall|q: Seq<Seq<char>>| #[trigger] region(q) ==> untouched_after_settings(q),
    ensures
        agree(m2, trimmed(m2), region),
{
    lemma_keys();
    let p = seq!["package"@];
    lemma_without_key_untouched(m2, p, "authors"@, region);
    let a0 = without_key(m2, p, "authors"@);
    lemma_without_key_untouched(a0, p, "categories"@, region);
    let a1 = without_key(a0, p, "categories"@);
    lemma_without_key_untouched(a1, p, "homepage"@, region);
    let a2 = without_key(a1, p, "homepage"@);
    lemma_without_key_untouched(a2, p, "keywords"@, region);
    let a3 = without_key(a2, p, "keywords"@);
    lemma_without_key_untouched(a3, p, "metadata"@, region);
    let a4 = without_key(a3, p, "metadata"@);
    lemma_without_key_untouched(a4, p, "readme"@, region);
    let a5 = without_key(a4, p, "readme"@);
    lemma_without_key_untouched(a5, p, "repository"@, region);
    let a6 = without_key(a5, p, "repository"@);
    assert(a6 == without_package_metadata(m2));
    lemma_removed_root_untouched(a6, "dev-dependencies"@, region);
    let b0 = removed_under(a6, seq!["dev-dependencies"@]);
    lemma_removed_root_untouched(b0, "bench"@, region);
    let b1 = removed_under(b0, seq!["bench"@]);
    lemma_removed_root_untouched(b1, "bin"@, region);
    let b2 = removed_under(b1, seq!["bin"@]);
    lemma_removed_root_untouched(b2, "example"@, region);
    let b3 = removed_under(b2, seq!["example"@]);
    lemma_removed_root_untouched(b3, "test"@, region);
    let b4 = removed_under(b3, seq!["test"@]);
    assert(b4 == without_extra_targets(without_package_metadata(m2)));
    lemma_pruned_frame(b4, region);
    lemma_agree_chain(m2, a0, a1, region);
    lemma_agree_chain(m2, a1, a2, region);
    lemma_agree_chain(m2, a2, a3, region);
    lemma_agree_chain(m2, a3, a4, region);
    lemma_agree_chain(m2, a4, a5, region);
    lemma_agree_chain(m2, a5, a6, region);
    lemma_agree_chain(m2, a6, b0, region);
    lemma_agree_chain(m2, b0, b1, region);
    lemma_agree_chain(m2, b1, b2, region);
    lemma_agree_chain(m2, b2, b3, region);
    lemma_agree_chain(m2, b3, b4, region);
    lemma_agree_chain(m2, b4, trimmed(m2), region);
}

/// The written manifest pins the Rust version that the patch needs.
pub proof fn lemma_guest_rust_version(
    m: Seq<(Seq<Seq<char>>, LeafView)>,
    role: Role,
    version: Seq<char>,
    rust_version: Seq<char>,
)
    ensures
        str_at(guest_written(m, role, version, rust_version), seq!["package"@, "rust-version"@])
            == Some(rust_version),
        has(
            guest_written(m, role, version, rust_version),
            (seq!["package"@, "rust-version"@], LeafView::Str(rust_version)),
        ),
{
    lemma_keys();
    reveal_strlit("telekio-test");
    let q = seq!["package"@, "rust-version"@];
    assert(q[0] == "package"@ && q[1] == "rust-version"@ && q.len() == 2);
    assert(q != seq!["package"@]) by {
        assert(seq!["package"@].len() == 1);
    }
    assert(q != seq!["dependencies"@]) by {
        assert(seq!["dependencies"@].len() == 1);
    }
    let r1 = replaced(m, seq!["package"@, "build"@], seq![(seq![], LeafView::Str("build.rs"@))]);
    let m2 = with_build_settings(m, rust_version);
    lemma_replaced_single(r1, q, LeafView::Str(rust_version));
    let region = |p: Seq<Seq<char>>| p == q;
    lemma_trim_frame(m2, region);
    let m3 = trimmed(m2);
    let f = seq!["features"@, "telekio-test"@];
    assert(f.drop_last() =~= seq!["features"@]);
    assert forall|p: Seq<Seq<char>>| #[trigger] region(p) implies !is_under(f, p) && p
        != f.drop_last() by {
        if is_under(f, p) {
            lemma_under_head(f, p);
        }
    }
    lemma_replaced_frame(m3, f, seq![(seq![], LeafView::Array(seq![]))], region);
    let m3b = with_test_feature(m3);
    lemma_tail_frame(m3b, role, version, region);
    lemma_agree_chain(m2, m3, m3b, region);
    let done = guest_written(m, role, version, rust_version);
    lemma_agree_chain(m2, m3b, done, region);
    assert forall|e: (Seq<Seq<char>>, LeafView)|
        has(done, e) && e.0 == q && !(e.1 is EmptyTable) implies e.1 == LeafView::Str(
        rust_version,
    ) by {
        assert(region(e.0));
    }
    assert(region(q));
    lemma_value_at_only(done, q, LeafView::Str(rust_version));
}

/// The written manifest declares the `telekio-test` feature.
pub proof fn lemma_guest_test_feature(
    m: Seq<(Seq<Seq<char>>, LeafView)>,
    role: Role,
    version: Seq<char>,
    rust_version: Seq<char>,
)
    ensures
        is_table(guest_written(m, role, version, rust_version), seq!["features"@]),
        holds(guest_written(m, role, version, rust_version), seq!["features"@, "telekio-test"@]),
{
    lemma_keys();
    let f = seq!["features"@, "telekio-test"@];
    let m3 = trimmed(with_build_settings(m, rust_version));
    lemma_replaced_single(m3, f, LeafView::Array(seq![]));
    let m3b = with_test_feature(m3);
    let region = |p: Seq<Seq<char>>| p == f;
    lemma_tail_frame(m3b, role, version, region);
    let done = guest_written(m, role, version, rust_version);
    let e = (f, LeafView::Array(seq![]));
    assert(region(e.0));
    assert(has(done, e));
    assert(f.subrange(0, 2) =~= f);
    assert(is_under(f, e.0));
    lemma_holds_has(done, f);
    assert(f.subrange(0, 1) =~= seq!["features"@]);
    assert(table_witness(seq!["features"@], e));
    lemma_is_table_has(done, seq!["features"@]);
}

/// The written manifest depends on the host runtime exactly for a host patch.
pub proof fn lemma_guest_host(
    m: Seq<(Seq<Seq<char>>, LeafView)>,
    role: Role,
    version: Seq<char>,
    rust_version: Seq<char>,
)
    ensures
        holds(
            guest_written(m, role, version, rust_version),
            seq!["dependencies"@, "telekio-host"@],
        ) == (role == Role::Host),
{
    lemma_keys();
    let h = seq!["dependencies"@, "telekio-host"@];
    let m3 = trimmed(with_build_settings(m, rust_version));
    let m4 = with_telekio(with_test_feature(m3), version);
    let m5 = with_host_choice(m4, role, version);
    let bd = seq!["build-dependencies"@];
    let last = seq![(seq!["telekio-build"@, "version"@], LeafView::Str("="@ + version))];
    let done = guest_written(m, role, version, rust_version);
    assert(done == replaced(m5, bd, last));
    if role == Role::Host {
        let hc = version_children(false, version);
        lemma_replaced_child(m4, h, hc, 0);
        let e = (h + hc[0].0, hc[0].1);
        assert(h + hc[0].0 =~= seq!["dependencies"@, "telekio-host"@, "version"@]);
        let region = |p: Seq<Seq<char>>| p == h + hc[0].0;
        assert(bd.drop_last() =~= Seq::<Seq<char>>::empty());
        assert forall|p: Seq<Seq<char>>| #[trigger] region(p) implies !is_under(bd, p) && p
            != bd.drop_last() by {
            if is_under(bd, p) {
                lemma_under_head(bd, p);
            }
        }
        lemma_replaced_frame(m5, bd, last, region);
        assert(region(e.0));
        assert(has(done, e));
        assert(e.0.subrange(0, 2) =~= h);
        lemma_holds_has(done, h);
    } else {
        let d = seq!["dependencies"@];
        assert(d.push("telekio-host"@) =~= h);
        lemma_without_key_clears(m4, d, "telekio-host"@);
        let allowed = |p: Seq<Seq<char>>| !is_under(h, p);
        let bv = seq!["build-dependencies"@, "telekio-build"@, "version"@];
        assert(bd + last[0].0 =~= bv);
        assert(allowed(bv)) by {
            if is_under(h, bv) {
                lemma_under_head(h, bv);
            }
        }
        lemma_placed_within(bd, last, allowed);
        lemma_replaced_within(m5, bd, last, allowed);
        assert forall|p: Seq<Seq<char>>| is_under(h, p) implies !#[trigger] allowed(p) by {}
        lemma_within_not_holds(done, h, allowed);
    }
}

/// No dependency of the written manifest comes from a path, when none of Tokio's does.
pub proof fn lemma_guest_no_path_dependencies(
    m: Seq<(Seq<Seq<char>>, LeafView)>,
    role: Role,
    version: Seq<char>,
    rust_version: Seq<char>,
)
    requires
        no_path_dependencies(m, "dependencies"@),
    ensures
        no_path_dependencies(guest_written(m, role, version, rust_version), "dependencies"@),
{
    lemma_keys();
    reveal_strlit("telekio");
    let allowed = |q: Seq<Seq<char>>|
        !(q.len() >= 3 && q[0] == "dependencies"@ && q[2] == "path"@);
    let deps = seq!["dependencies"@];
    assert forall|e: (Seq<Seq<char>>, LeafView)| #[trigger] has(m, e) implies allowed(e.0) by {
        if !allowed(e.0) {
            let i = choose|i: int| 0 <= i < m.len() && m[i] == e;
            let name = e.0[1];
            assert(e.0.subrange(0, 1) =~= deps);
            assert(is_key_below(m, deps, name));
            assert(e.0.subrange(0, 3) =~= seq!["dependencies"@, name, "path"@]);
            assert(holds(m, seq!["dependencies"@, name, "path"@]));
        }
    }
    lemma_guest_within(m, role, version, rust_version, allowed);
    let done = guest_written(m, role, version, rust_version);
    assert forall|name: Seq<char>| #[trigger] is_key_below(done, deps, name) implies !holds(
        done,
        seq!["dependencies"@, name, "path"@],
    ) by {
        let path = seq!["dependencies"@, name, "path"@];
        assert forall|q: Seq<Seq<char>>| is_under(path, q) implies !#[trigger] allowed(q) by {
            lemma_under_head(path, q);
        }
        lemma_within_not_holds(done, path, allowed);
    }
}

/// The paths the rest of the writing adds lie outside `root`, when `root` is
/// none of the tables it writes.
proof fn lemma_tail_avoids_root(root: Seq<char>, allowed: spec_fn(Seq<Seq<char>>) -> bool)
    requires
        root != "features"@ && root != "dependencies"@ && root != "build-dependencies"@,
        forall|q: Seq<Seq<char>>| #[trigger] allowed(q) <==> !is_under(seq![root], q),
    ensures
        allowed(seq!["features"@, "telekio-test"@]),
        allowed(seq!["dependencies"@]),
        allowed(seq!["dependencies"@, "telekio"@, "version"@]),
        allowed(seq!["dependencies"@, "telekio"@, "features"@]),
        allowed(seq!["dependencies"@, "telekio-host"@, "version"@]),
        allowed(seq!["build-dependencies"@, "telekio-build"@, "version"@]),
{
    let r = seq![root];
    let qs = seq![
        seq!["features"@, "telekio-test"@],
        seq!["dependencies"@],
        seq!["dependencies"@, "telekio"@, "version"@],
        seq!["dependencies"@, "telekio"@, "features"@],
        seq!["dependencies"@, "telekio-host"@, "version"@],
        seq!["build-dependencies"@, "telekio-build"@, "version"@],
    ];
    assert forall|i: int| 0 <= i < qs.len() implies #[trigger] allowed(qs[i]) by {
        if is_under(r, qs[i]) {
            lemma_under_head(r, qs[i]);
        }
    }
    assert(allowed(qs[0]));
    assert(allowed(qs[1]));
    assert(allowed(qs[2]));
    assert(allowed(qs[3]));
    assert(allowed(qs[4]));
    assert(allowed(qs[5]));
}

/// The written manifest has no development dependencies and no extra targets.
pub proof fn lemma_guest_without_extra_targets(
    m: Seq<(Seq<Seq<char>>, LeafView)>,
    role: Role,
    version: Seq<char>,
    rust_version: Seq<char>,
    root: Seq<char>,
)
    requires
        root == "dev-dependencies"@ || root == "bench"@ || root == "bin"@ || root == "example"@
            || root == "test"@,
    ensures
        !holds(guest_written(m, role, version, rust_version), seq![root]),
{
    lemma_keys();
    let r = seq![root];
    let allowed = |q: Seq<Seq<char>>| !is_under(r, q);
    lemma_tail_avoids_root(root, allowed);
    assert(allowed(seq!["target"@])) by {
        if is_under(r, seq!["target"@]) {
            lemma_under_head(r, seq!["target"@]);
        }
    }
    let x = without_package_metadata(with_build_settings(m, rust_version));
    let b0 = removed_under(x, seq!["dev-dependencies"@]);
    let b1 = removed_under(b0, seq!["bench"@]);
    let b2 = removed_under(b1, seq!["bin"@]);
    let b3 = removed_under(b2, seq!["example"@]);
    let b4 = removed_under(b3, seq!["test"@]);
    assert(b4 == without_extra_targets(x));
    if root == "dev-dependencies"@ {
        lemma_removed_under_clears(x, r);
        lemma_removed_under_within(b0, seq!["bench"@], allowed);
        lemma_removed_under_within(b1, seq!["bin"@], allowed);
        lemma_removed_under_within(b2, seq!["example"@], allowed);
        lemma_removed_under_within(b3, seq!["test"@], allowed);
    } else if root == "bench"@ {
        lemma_removed_under_clears(b0, r);
        lemma_removed_under_within(b1, seq!["bin"@], allowed);
        lemma_removed_under_within(b2, seq!["example"@], allowed);
        lemma_removed_under_within(b3, seq!["test"@], allowed);
    } else if root == "bin"@ {
        lemma_removed_under_clears(b1, r);
        lemma_removed_under_within(b2, seq!["example"@], allowed);
        lemma_removed_under_within(b3, seq!["test"@], allowed);
    } else if root == "example"@ {
        lemma_removed_under_clears(b2, r);
        lemma_removed_under_within(b3, seq!["test"@], allowed);
    } else {
        lemma_removed_under_clears(b3, r);
    }
    lemma_pruned_within(b4, allowed);
    lemma_tail_within(trimmed(with_build_settings(m, rust_version)), role, version, allowed);
    assert forall|q: Seq<Seq<char>>| is_under(r, q) implies !#[trigger] allowed(q) by {}
    lemma_within_not_holds(guest_written(m, role, version, rust_version), r, allowed);
}

/// The written manifest keeps its package table, without the package's metadata.
pub proof fn lemma_guest_package(
    m: Seq<(Seq<Seq<char>>, LeafView)>,
    role: Role,
    version: Seq<char>,
    rust_version: Seq<char>,
)
    ensures
        is_table(guest_written(m, role, version, rust_version), seq!["package"@]),
        !holds(guest_written(m, role, version, rust_version), seq!["package"@, "metadata"@]),
{
    lemma_keys();
    lemma_guest_rust_version(m, role, version, rust_version);
    let done = guest_written(m, role, version, rust_version);
    let rv = (seq!["package"@, "rust-version"@], LeafView::Str(rust_version));
    assert(rv.0.subrange(0, 1) =~= seq!["package"@]);
    assert(table_witness(seq!["package"@], rv));
    lemma_is_table_has(done, seq!["package"@]);
    let md = seq!["package"@].push("metadata"@);
    assert(md =~= seq!["package"@, "metadata"@]);
    let allowed = |q: Seq<Seq<char>>| !is_under(md, q);
    let m2 = with_build_settings(m, rust_version);
    let p = seq!["package"@];
    let a0 = without_key(m2, p, "authors"@);
    let a1 = without_key(a0, p, "categories"@);
    let a2 = without_key(a1, p, "homepage"@);
    let a3 = without_key(a2, p, "keywords"@);
    let a4 = without_key(a3, p, "metadata"@);
    let a5 = without_key(a4, p, "readme"@);
    let a6 = without_key(a5, p, "repository"@);
    assert(a6 == without_package_metadata(m2));
    lemma_without_key_clears(a3, p, "metadata"@);
    assert(allowed(p)) by {
        assert(p.len() < md.len());
    }
    lemma_without_key_within(a4, p, "readme"@, allowed);
    lemma_without_key_within(a5, p, "repository"@, allowed);
    assert forall|q: Seq<Seq<char>>| q.len() > 0 && q[0] != "package"@ implies #[trigger] allowed(q) by {
        if is_under(md, q) {
            lemma_under_head(md, q);
        }
    }
    assert(seq!["target"@][0] != "package"@);
    lemma_within_through_trim(a6, allowed);
    assert(seq!["features"@, "telekio-test"@][0] != "package"@);
    assert(seq!["dependencies"@][0] != "package"@);
    assert(seq!["dependencies"@, "telekio"@, "version"@][0] != "package"@);
    assert(seq!["dependencies"@, "telekio"@, "features"@][0] != "package"@);
    assert(seq!["dependencies"@, "telekio-host"@, "version"@][0] != "package"@);
    assert(seq!["build-dependencies"@, "telekio-build"@, "version"@][0] != "package"@);
    lemma_tail_within(trimmed(m2), role, version, allowed);
    assert forall|q: Seq<Seq<char>>| is_under(md, q) implies !#[trigger] allowed(q) by {}
    lemma_within_not_holds(done, md, allowed);
}

/// No target of the written manifest has development dependencies.
pub proof fn lemma_guest_no_target_dev_dependencies(
    m: Seq<(Seq<Seq<char>>, LeafView)>,
    role: Role,
    version: Seq<char>,
    rust_version: Seq<char>,
)
    ensures
        no_target_dev_dependencies(guest_written(m, role, version, rust_version)),
{
    lemma_keys();
    let allowed = |q: Seq<Seq<char>>|
        !(q.len() >= 3 && q[0] == "target"@ && q[2] == "dev-dependencies"@);
    let y = without_extra_targets(without_package_metadata(with_build_settings(m, rust_version)));
    let t = seq!["target"@];
    if is_table(y, t) {
        let keep = |e: (Seq<Seq<char>>, LeafView)| !is_target_dev_entry(e);
        let rest = keep_entries(y, keep);
        assert forall|e: (Seq<Seq<char>>, LeafView)| #[trigger] has(pruned_targets(y), e) implies allowed(
            e.0,
        ) by {
            lemma_keep_has(y, keep, e);
            if !holds(rest, t) {
                lemma_push_has(rest, (t, LeafView::EmptyTable), e);
            }
        }
    } else {
        assert forall|e: (Seq<Seq<char>>, LeafView)| #[trigger] has(y, e) implies allowed(e.0) by {
            if !allowed(e.0) {
                assert(e.0.subrange(0, 1) =~= t);
                assert(table_witness(t, e));
                lemma_is_table_has(y, t);
            }
        }
    }
    assert(seq!["dependencies"@, "telekio"@, "version"@][0] == "dependencies"@);
    assert(seq!["dependencies"@, "telekio"@, "features"@][0] == "dependencies"@);
    assert(seq!["dependencies"@, "telekio-host"@, "version"@][0] == "dependencies"@);
    assert(seq!["build-dependencies"@, "telekio-build"@, "version"@][0] == "build-dependencies"@);
    lemma_tail_within(trimmed(with_build_settings(m, rust_version)), role, version, allowed);
    let done = guest_written(m, role, version, rust_version);
    assert forall|name: Seq<char>| #[trigger] is_key_below(done, t, name) implies !(is_table(
        done,
        seq!["target"@, name],
    ) && holds(done, seq!["target"@, name, "dev-dependencies"@])) by {
        let path = seq!["target"@, name, "dev-dependencies"@];
        assert forall|q: Seq<Seq<char>>| is_under(path, q) implies !#[trigger] allowed(q) by {
            lemma_under_head(path, q);
        }
        lemma_within_not_holds(done, path, allowed);
    }
}

/// Law: writing a guest patch and then asking whether it is current says that
/// it is, for the same role and the same Telekio release. This holds for every
/// Tokio manifest that the writer accepts whose dependencies come from
/// registries.
pub proof fn written_guest_patch_is_current(
    m: Seq<(Seq<Seq<char>>, LeafView)>,
    role: Role,
    version: Seq<char>,
    rust_version: Seq<char>,
)
    requires
        patched_manifest(m, role, version, rust_version) is Ok,
        no_path_dependencies(m, "dependencies"@),
    ensures
        patched_manifest(m, role, version, rust_version) matches Ok(done) && is_current(
            done,
            role,
            version,
            rust_version,
        ),
{
    lemma_guest_steps(m, role, version, rust_version);
    let m3 = trimmed(with_build_settings(m, rust_version));
    lemma_written_build_dependency(
        with_host_choice(with_telekio(with_test_feature(m3), version), role, version),
        version,
    );
    lemma_guest_rust_version(m, role, version, rust_version);
    lemma_guest_test_feature(m, role, version, rust_version);
    lemma_guest_host(m, role, version, rust_version);
    lemma_guest_no_path_dependencies(m, role, version, rust_version);
    lemma_guest_without_extra_targets(m, role, version, rust_version, "bench"@);
    lemma_guest_without_extra_targets(m, role, version, rust_version, "bin"@);
    lemma_guest_without_extra_targets(m, role, version, rust_version, "dev-dependencies"@);
    lemma_guest_without_extra_targets(m, role, version, rust_version, "example"@);
    lemma_guest_without_extra_targets(m, role, version, rust_version, "test"@);
    lemma_guest_package(m, role, version, rust_version);
    lemma_guest_no_target_dev_dependencies(m, role, version, rust_version);
}

} // verus!
