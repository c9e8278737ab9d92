//! The compiler proxies that build guests against the transformed Tokio: the
//! values they are configured with, the crates they are built from, and the
//! fingerprint that tells their builds apart.
use vstd::prelude::*;

use sha2::{Digest, Sha256};

use crate::package::{is_parent_text, path_parent};
use crate::path::{extension, file_name_of, file_stem, name_extension_of, name_stem_of};
use crate::source::{PackageRecord, manifest_parent_is, text_of};
use crate::json_value::{
    JsonValue, JsonView, field, json_field, json_text, json_view, json_views, lemma_json_views,
    parse_json, spec_json_parse, text_field,
};
use crate::bytes::copy_range;
use crate::manifest::{Entry, Leaf, LeafView, Manifest, entry_views, holds, is_under, keep_entries, keys, path_under};
use crate::package::{entry, path1, path2};
use vstd::string::StrSliceExecFns;
use vstd::utf8::encode_utf8;
use crate::text::{chars_of, join_name, join_str, joined_name, owned, str_eq};

verus! {

/// The SHA-256 digest of `data`.
pub uninterp spec fn spec_sha256(data: Seq<u8>) -> Seq<u8>;

/// Calls `sha2::Sha256::digest`. Claims that the digest is a function of the
/// data alone, and that it is 32 bytes long (its output type has 32 elements).
#[verifier::external_body]
fn sha256(data: &[u8]) -> (r: Vec<u8>)
    ensures
        r@ == spec_sha256(data@),
        r@.len() == 32,
{
    Sha256::digest(data).to_vec()
}

/// The lowercase hexadecimal digit of `n`.
pub open spec fn hex_digit(n: u8) -> char {
    if n < 10 {
        (48 + n) as char
    } else {
        (87 + n) as char
    }
}

/// `bytes`, each written as two lowercase hexadecimal digits.
pub open spec fn hex(bytes: Seq<u8>) -> Seq<char>
    decreases bytes.len(),
{
    if bytes.len() == 0 {
        seq![]
    } else {
        hex(bytes.drop_last()) + seq![
            hex_digit(bytes.last() / 16),
            hex_digit(bytes.last() % 16),
        ]
    }
}

fn digit(n: u8) -> (c: char)
    requires
        n < 16,
    ensures
        c == hex_digit(n),
{
    match n {
        0 => '0',
        1 => '1',
        2 => '2',
        3 => '3',
        4 => '4',
        5 => '5',
        6 => '6',
        7 => '7',
        8 => '8',
        9 => '9',
        10 => 'a',
        11 => 'b',
        12 => 'c',
        13 => 'd',
        14 => 'e',
        _ => 'f',
    }
}

/// The fingerprint of a digest: its first eight bytes in hexadecimal.
pub fn fingerprint_of(digest: &[u8]) -> (r: Vec<char>)
    requires
        digest@.len() >= 8,
    ensures
        r@ == hex(digest@.subrange(0, 8)),
{
    let mut r: Vec<char> = Vec::new();
    let mut i: usize = 0;
    while i < 8
        invariant
            digest@.len() >= 8,
            i <= 8,
            r@ == hex(digest@.subrange(0, i as int)),
        decreases 8 - i,
    {
        let b = digest[i];
        let ghost before = r@;
        r.push(digit(b / 16));
        r.push(digit(b % 16));
        assert(digest@.subrange(0, i + 1).drop_last() =~= digest@.subrange(0, i as int));
        assert(r@ =~= hex(digest@.subrange(0, i + 1)));
        i += 1;
    }
    r
}

/// The fingerprint of the rustc proxy's source, which names the build of the tools.
pub fn fingerprint(source: &[u8]) -> (r: Vec<char>)
    ensures
        r@ == hex(spec_sha256(source@).subrange(0, 8)),
{
    let digest = sha256(source);
    fingerprint_of(digest.as_slice())
}

/// `s` as Rust's `Debug` writes a string: quoted, with escapes.
pub uninterp spec fn spec_debug_str(s: Seq<char>) -> Seq<char>;

/// Formats a string with `{:?}`. Claims only that the text is a function of
/// the string alone; its quoting and escaping are left unsaid.
#[verifier::external_body]
fn debug_str(s: &str) -> (r: String)
    ensures
        r@ == spec_debug_str(s@),
{
    format!("{s:?}")
}

/// The feature names, quoted and separated by commas.
pub open spec fn quoted_list(names: Seq<Seq<char>>) -> Seq<char>
    decreases names.len(),
{
    if names.len() == 0 {
        seq![]
    } else if names.len() == 1 {
        spec_debug_str(names[0])
    } else {
        quoted_list(names.drop_last()) + ", "@ + spec_debug_str(names.last())
    }
}

/// The `check-cfg` value that declares the generated Tokio's features.
pub fn check_cfg(features: &[String]) -> (r: String)
    ensures
        r@ == "cfg(feature, values("@ + quoted_list(features@.map_values(|f: String| f@)) + "))"@,
{
    let ghost names = features@.map_values(|f: String| f@);
    let mut list = String::new();
    let mut i: usize = 0;
    while i < features.len()
        invariant
            names == features@.map_values(|f: String| f@),
            i <= features@.len(),
            list@ == quoted_list(names.subrange(0, i as int)),
        decreases features@.len() - i,
    {
        let quoted = debug_str(features[i].as_str());
        assert(names.subrange(0, i + 1).drop_last() =~= names.subrange(0, i as int));
        if i == 0 {
            list = quoted;
        } else {
            let with_comma = join_str(list.as_str(), ", ");
            list = join_str(with_comma.as_str(), quoted.as_str());
        }
        i += 1;
    }
    assert(names.subrange(0, features@.len() as int) =~= names);
    let head = join_str("cfg(feature, values(", list.as_str());
    join_str(head.as_str(), "))")
}

/// `c` in upper case when it is an ASCII lowercase letter.
pub open spec fn upper_char(c: char) -> char {
    if 'a' <= c && c <= 'z' {
        ((c as u32) - 32) as char
    } else {
        c
    }
}

/// The host triple as an environment variable name fragment: `-` becomes `_`,
/// letters are in upper case.
pub open spec fn env_fragment(host: Seq<char>) -> Seq<char> {
    host.map_values(|c: char| if c == '-' {
        '_'
    } else {
        upper_char(c)
    })
}

/// The variable that carries the host's own rustflags, which the macros build drops.
pub fn host_rustflags(host: &str) -> (r: String)
    ensures
        r@ == "CARGO_TARGET_"@ + env_fragment(host@) + "_RUSTFLAGS"@,
{
    let chars = chars_of(host);
    let mut fragment = String::new();
    let mut i: usize = 0;
    while i < chars.len()
        invariant
            chars@ == host@,
            i <= chars@.len(),
            fragment@ == env_fragment(host@.subrange(0, i as int)),
        decreases chars@.len() - i,
    {
        let c = chars[i];
        let mapped: char = if c == '-' {
            '_'
        } else if 'a' <= c && c <= 'z' {
            ((c as u8) - 32) as char
        } else {
            c
        };
        assert(mapped == (if c == '-' {
            '_'
        } else {
            upper_char(c)
        })) by {
            if c != '-' && 'a' <= c && c <= 'z' {
                assert((c as u8) as u32 == c as u32);
            }
        }
        fragment.push(mapped);
        assert(env_fragment(host@.subrange(0, i + 1)) =~= env_fragment(host@.subrange(0, i as int))
            .push(mapped));
        i += 1;
    }
    assert(host@.subrange(0, host@.len() as int) =~= host@);
    let head = join_str("CARGO_TARGET_", fragment.as_str());
    join_str(head.as_str(), "_RUSTFLAGS")
}

/// The Cargo profile that the macros are built with: `dev` for a debug build.
pub fn macros_profile(profile: &str) -> (r: &'static str)
    ensures
        r@ == (if profile@ == "debug"@ {
            "dev"@
        } else {
            "release"@
        }),
{
    if str_eq(profile, "debug") {
        "dev"
    } else {
        "release"
    }
}

/// The manifest of the package that builds Tokio's macros from `macros`.
pub fn macros_manifest(macros: &str) -> (r: String)
    ensures
        r@ == "[package]\nname = \"telekio-compiler-macros\"\nversion = \"0.0.0\"\nedition = \"2024\"\n\n[workspace]\n\n[dependencies]\ntokio-macros = { path = "@
            + spec_debug_str(macros@) + " }\n"@,
{
    let quoted = debug_str(macros);
    let head = join_str(
        "[package]\nname = \"telekio-compiler-macros\"\nversion = \"0.0.0\"\nedition = \"2024\"\n\n[workspace]\n\n[dependencies]\ntokio-macros = { path = ",
        quoted.as_str(),
    );
    join_str(head.as_str(), " }\n")
}

/// The workspace wrapper whose file stem begins `clippy-driver` is Clippy's,
/// whose settings the macros build drops.
pub fn is_clippy_driver(wrapper: &[u8]) -> (r: bool)
    ensures
        r == (match file_stem(wrapper@) {
            Some(stem) => stem.len() >= 13 && stem.subrange(0, 13) == seq![
                99u8,
                108,
                105,
                112,
                112,
                121,
                45,
                100,
                114,
                105,
                118,
                101,
                114,
            ],
            None => false,
        }),
{
    let prefix: &[u8] = &[99u8, 108, 105, 112, 112, 121, 45, 100, 114, 105, 118, 101, 114];
    match file_name_of(wrapper) {
        Some(name) => {
            let stem = name_stem_of(name.as_slice());
            crate::bytes::starts_with(stem.as_slice(), prefix)
        },
        None => false,
    }
}

/// Cargo runs offline when the resolution options ask for it.
pub fn wants_offline(options: &[Option<String>]) -> (r: bool)
    ensures
        r == exists|i: int|
            0 <= i < options@.len() && (text_of(#[trigger] options@[i]) == Some("--frozen"@)
                || text_of(options@[i]) == Some("--offline"@)),
{
    let mut i: usize = 0;
    while i < options.len()
        invariant
            i <= options@.len(),
            forall|j: int|
                0 <= j < i ==> !(text_of(#[trigger] options@[j]) == Some("--frozen"@) || text_of(
                    options@[j],
                ) == Some("--offline"@)),
        decreases options@.len() - i,
    {
        let hit = match &options[i] {
            Some(o) => str_eq(o.as_str(), "--frozen") || str_eq(o.as_str(), "--offline"),
            None => false,
        };
        if hit {
            assert(text_of(options@[i as int]) == Some("--frozen"@) || text_of(options@[i as int])
                == Some("--offline"@));
            return true;
        }
        i += 1;
    }
    false
}

/// A message that Cargo prints while building, as far as it is read.
pub struct ArtifactMessage {
    pub reason: Option<String>,
    pub target_name: Option<String>,
    /// The message's file names that are strings.
    pub filenames: Vec<Vec<u8>>,
}

/// The file is a dynamic library: its extension is `dll`, `dylib` or `so`.
pub open spec fn is_dynamic_library(file: Seq<u8>) -> bool {
    extension(file) == Some(seq![100u8, 108, 108]) || extension(file) == Some(
        seq![100u8, 121, 108, 105, 98],
    ) || extension(file) == Some(seq![115u8, 111])
}

/// The message reports the artifact of the target `name`.
pub open spec fn reports(message: ArtifactMessage, name: Seq<char>) -> bool {
    text_of(message.reason) == Some("compiler-artifact"@) && text_of(message.target_name) == Some(
        name,
    )
}

fn is_dynamic_library_exec(file: &[u8]) -> (r: bool)
    ensures
        r == is_dynamic_library(file@),
{
    let dll: &[u8] = &[100u8, 108, 108];
    let dylib: &[u8] = &[100u8, 121, 108, 105, 98];
    let so: &[u8] = &[115u8, 111];
    match file_name_of(file) {
        Some(name) => match name_extension_of(name.as_slice()) {
            Some(ext) => crate::bytes::eq_bytes(ext.as_slice(), dll) || crate::bytes::eq_bytes(
                ext.as_slice(),
                dylib,
            ) || crate::bytes::eq_bytes(ext.as_slice(), so),
            None => false,
        },
        None => false,
    }
}

fn first_library_exec(files: &Vec<Vec<u8>>) -> (r: Option<usize>)
    ensures
        match r {
            Some(i) => i < files@.len() && is_dynamic_library(files@[i as int]@) && forall|j: int|
                0 <= j < i ==> !is_dynamic_library(#[trigger] files@[j]@),
            None => forall|j: int| 0 <= j < files@.len() ==> !is_dynamic_library(#[trigger] files@[j]@),
        },
{
    let mut i: usize = 0;
    while i < files.len()
        invariant
            i <= files@.len(),
            forall|j: int| 0 <= j < i ==> !is_dynamic_library(#[trigger] files@[j]@),
        decreases files@.len() - i,
    {
        if is_dynamic_library_exec(files[i].as_slice()) {
            return Some(i);
        }
        i += 1;
    }
    None
}

/// The library of the proc-macro crate `name` that Cargo built: the first
/// dynamic library of the first message that reports the crate with one.
pub fn proc_macro(messages: &[ArtifactMessage], name: &str) -> (r: Option<Vec<u8>>)
    ensures
        match r {
            Some(library) => exists|m: int, f: int|
                #![trigger messages@[m].filenames@[f]]
                {
                    &&& 0 <= m < messages@.len()
                    &&& reports(messages@[m], name@)
                    &&& 0 <= f < messages@[m].filenames@.len()
                    &&& messages@[m].filenames@[f]@ == library@
                    &&& is_dynamic_library(library@)
                    &&& forall|g: int|
                        0 <= g < f ==> !is_dynamic_library(
                            #[trigger] messages@[m].filenames@[g]@,
                        )
                    &&& forall|k: int|
                        0 <= k < m && reports(#[trigger] messages@[k], name@) ==> forall|g: int|
                            0 <= g < messages@[k].filenames@.len() ==> !is_dynamic_library(
                                #[trigger] messages@[k].filenames@[g]@,
                            )
                },
            None => forall|k: int|
                0 <= k < messages@.len() && reports(#[trigger] messages@[k], name@) ==> forall|g: int|
                    0 <= g < messages@[k].filenames@.len() ==> !is_dynamic_library(
                        #[trigger] messages@[k].filenames@[g]@,
                    ),
        },
{
    let mut m: usize = 0;
    while m < messages.len()
        invariant
            m <= messages@.len(),
            forall|k: int|
                0 <= k < m && reports(#[trigger] messages@[k], name@) ==> forall|g: int|
                    0 <= g < messages@[k].filenames@.len() ==> !is_dynamic_library(
                        #[trigger] messages@[k].filenames@[g]@,
                    ),
        decreases messages@.len() - m,
    {
        let message = &messages[m];
        let reason_ok = match &message.reason {
            Some(reason) => str_eq(reason.as_str(), "compiler-artifact"),
            None => false,
        };
        let target_ok = match &message.target_name {
            Some(target) => str_eq(target.as_str(), name),
            None => false,
        };
        if reason_ok && target_ok {
            match first_library_exec(&message.filenames) {
                Some(f) => {
                    let library = crate::bytes::copy_range(
                        message.filenames[f].as_slice(),
                        0,
                        message.filenames[f].len(),
                    );
                    assert(message.filenames@[f as int]@.subrange(
                        0,
                        message.filenames@[f as int]@.len() as int,
                    ) =~= message.filenames@[f as int]@);
                    return Some(library);
                },
                None => {},
            }
        }
        m += 1;
    }
    None
}

/// Why the compiler's copy of the Telekio ABI could not be found.
#[derive(Clone, Copy, Debug, PartialEq, Eq, Structural)]
pub enum AbiError {
    NoTelekioDependency,
    PackageUnavailable,
    ManifestHasNoParent,
}

/// Record `i` is the first one named `telekio`.
pub open spec fn first_telekio(records: Seq<PackageRecord>, i: int) -> bool {
    &&& 0 <= i < records.len()
    &&& text_of(records[i].name) == Some("telekio"@)
    &&& forall|j: int| 0 <= j < i ==> text_of(#[trigger] records[j].name) != Some("telekio"@)
}

/// The ABI's library root: `src/lib.rs` beside the manifest of the first
/// package named `telekio` that Cargo described.
pub fn abi_source(records: &[PackageRecord]) -> (r: Result<String, AbiError>)
    ensures
        match r {
            Ok(source) => exists|i: int|
                #[trigger] first_telekio(records@, i) && match records@[i].manifest_path {
                    Some(m) => exists|p: Seq<char>|
                        #[trigger] is_parent_text(p, m@) && source@ == joined_name(
                            p,
                            "src/lib.rs"@,
                        ),
                    None => false,
                },
            Err(AbiError::PackageUnavailable) => forall|i: int|
                #[trigger] first_telekio(records@, i) ==> records@[i].manifest_path is None,
            Err(AbiError::ManifestHasNoParent) => exists|i: int|
                #[trigger] first_telekio(records@, i) && match records@[i].manifest_path {
                    Some(m) => true,
                    None => false,
                },
            Err(AbiError::NoTelekioDependency) => false,
        },
        forall|i: int, d: Seq<char>|
            #![trigger first_telekio(records@, i), manifest_parent_is(records@[i], d)]
            first_telekio(records@, i) && manifest_parent_is(records@[i], d) ==> (r matches Ok(s)
                && s@ == joined_name(d, "src/lib.rs"@)),
{
    let mut i: usize = 0;
    while i < records.len()
        invariant
            i <= records@.len(),
            forall|j: int| 0 <= j < i ==> text_of(#[trigger] records@[j].name) != Some("telekio"@),
        decreases records@.len() - i,
    {
        let named = match &records[i].name {
            Some(n) => str_eq(n.as_str(), "telekio"),
            None => false,
        };
        if named {
            assert(first_telekio(records@, i as int));
            assert forall|k: int| #[trigger] first_telekio(records@, k) implies k == i by {
                if k < i {
                    assert(text_of(records@[k].name) != Some("telekio"@));
                } else if k > i {
                    assert(text_of(records@[i as int].name) != Some("telekio"@));
                }
            }
            return match &records[i].manifest_path {
                Some(manifest) => match path_parent(manifest.as_str()) {
                    Some(parent) => Ok(join_name(parent.as_str(), "src/lib.rs")),
                    None => Err(AbiError::ManifestHasNoParent),
                },
                None => Err(AbiError::PackageUnavailable),
            };
        }
        i += 1;
    }
    assert forall|k: int| #[trigger] first_telekio(records@, k) implies records@[k].manifest_path
        is None by {
        assert(text_of(records@[k].name) != Some("telekio"@));
    }
    Err(AbiError::PackageUnavailable)
}

/// `i` is the first newline of `b`.
pub open spec fn first_newline_at(b: Seq<u8>, i: int) -> bool {
    &&& 0 <= i < b.len()
    &&& b[i] == 10u8
    &&& forall|j: int| 0 <= j < i ==> b[j] != 10u8
}

/// The lines of `b`, split at each newline; the last line is what follows the
/// last newline, empty when `b` ends in one.
pub open spec fn lines_of(b: Seq<u8>) -> Seq<Seq<u8>>
    decreases b.len(),
{
    if exists|i: int| #[trigger] first_newline_at(b, i) {
        let i = choose|i: int| #[trigger] first_newline_at(b, i);
        seq![b.subrange(0, i)] + lines_of(b.subrange(i + 1, b.len() as int))
    } else {
        seq![b]
    }
}

/// The UTF-8 bytes of the items that are strings, in order.
pub open spec fn string_bytes(items: Seq<JsonView>) -> Seq<Seq<u8>>
    decreases items.len(),
{
    if items.len() == 0 {
        seq![]
    } else {
        string_bytes(items.drop_last()) + match items.last() {
            JsonView::Str(s) => seq![encode_utf8(s)],
            _ => Seq::<Seq<u8>>::empty(),
        }
    }
}

/// The message holds what the JSON line says.
pub open spec fn message_of(m: ArtifactMessage, j: JsonView) -> bool {
    &&& text_of(m.reason) == json_text(json_field(j, "reason"@))
    &&& text_of(m.target_name) == match json_field(j, "target"@) {
        Some(t) => json_text(json_field(t, "name"@)),
        None => None,
    }
    &&& m.filenames@.map_values(|f: Vec<u8>| f@) == match json_field(j, "filenames"@) {
        Some(JsonView::Array(items)) => string_bytes(items),
        _ => seq![],
    }
}

/// The lines that read as JSON, each with its value, in order.
pub open spec fn json_lines(lines: Seq<Seq<u8>>) -> Seq<JsonView>
    decreases lines.len(),
{
    if lines.len() == 0 {
        seq![]
    } else {
        json_lines(lines.drop_last()) + match spec_json_parse(lines.last()) {
            Some(j) => seq![j],
            None => Seq::<JsonView>::empty(),
        }
    }
}

fn split_lines(b: &[u8], start: usize) -> (r: Vec<Vec<u8>>)
    requires
        start <= b@.len(),
    ensures
        r@.map_values(|l: Vec<u8>| l@) == lines_of(b@.subrange(start as int, b@.len() as int)),
    decreases b@.len() - start,
{
    let ghost rest = b@.subrange(start as int, b@.len() as int);
    let mut i = start;
    while i < b.len()
        invariant
            start <= i <= b@.len(),
            rest == b@.subrange(start as int, b@.len() as int),
            forall|j: int| start <= j < i ==> b@[j] != 10u8,
        ensures
            start <= i <= b@.len(),
            rest == b@.subrange(start as int, b@.len() as int),
            forall|j: int| start <= j < i ==> b@[j] != 10u8,
            i < b@.len() ==> b@[i as int] == 10u8,
        decreases b@.len() - i,
    {
        if b[i] == 10u8 {
            break;
        }
        i += 1;
    }
    if i == b.len() {
        assert forall|x: int| !#[trigger] first_newline_at(rest, x) by {
            if 0 <= x < rest.len() {
                assert(rest[x] == b@[start + x]);
            }
        }
        let line = copy_range(b, start, b.len());
        let r = vec![line];
        assert(r@.map_values(|l: Vec<u8>| l@) =~= seq![rest]);
        return r;
    }
    let ghost k = (i - start) as int;
    assert(rest[k] == b@[i as int]);
    assert(first_newline_at(rest, k)) by {
        assert forall|j: int| 0 <= j < k implies rest[j] != 10u8 by {
            assert(rest[j] == b@[start + j]);
        }
    }
    assert forall|x: int| #[trigger] first_newline_at(rest, x) implies x == k by {
        if x < k {
            assert(rest[x] != 10u8);
        } else if x > k {
            assert(rest[k] != 10u8);
        }
    }
    let line = copy_range(b, start, i);
    let mut r = split_lines(b, i + 1);
    assert(rest.subrange(0, k) =~= b@.subrange(start as int, i as int));
    assert(rest.subrange(k + 1, rest.len() as int) =~= b@.subrange(i + 1, b@.len() as int));
    let ghost tail = r@.map_values(|l: Vec<u8>| l@);
    r.insert(0, line);
    assert(r@.map_values(|l: Vec<u8>| l@) =~= seq![b@.subrange(start as int, i as int)] + tail);
    r
}

fn filenames_of(j: &JsonValue) -> (r: Vec<Vec<u8>>)
    ensures
        r@.map_values(|f: Vec<u8>| f@) == match json_field(j@, "filenames"@) {
            Some(JsonView::Array(items)) => string_bytes(items),
            _ => seq![],
        },
{
    let mut r: Vec<Vec<u8>> = Vec::new();
    let items = match field(j, "filenames") {
        Some(JsonValue::Array(items)) => items,
        _ => {
            assert(r@.map_values(|f: Vec<u8>| f@) =~= Seq::<Seq<u8>>::empty());
            return r;
        },
    };
    let ghost views = json_views(items@);
    proof {
        lemma_json_views(items@);
    }
    let mut i: usize = 0;
    while i < items.len()
        invariant
            views == items@.map_values(|v: JsonValue| json_view(v)),
            i <= items@.len(),
            r@.map_values(|f: Vec<u8>| f@) == string_bytes(views.subrange(0, i as int)),
        decreases items@.len() - i,
    {
        let ghost before = r@.map_values(|f: Vec<u8>| f@);
        assert(views[i as int] == json_view(items@[i as int]));
        assert(views.subrange(0, i + 1).drop_last() =~= views.subrange(0, i as int));
        match &items[i] {
            JsonValue::Str(s) => {
                let bytes = s.as_str().as_bytes_vec();
                r.push(bytes);
                assert(r@.map_values(|f: Vec<u8>| f@) =~= before.push(encode_utf8(s@)));
            },
            _ => {},
        }
        assert(r@.map_values(|f: Vec<u8>| f@) =~= string_bytes(views.subrange(0, i + 1)));
        i += 1;
    }
    assert(views.subrange(0, items@.len() as int) =~= views);
    r
}

fn message_from(j: &JsonValue) -> (m: ArtifactMessage)
    ensures
        message_of(m, j@),
{
    let target_name = match field(j, "target") {
        Some(t) => text_field(t, "name"),
        None => None,
    };
    ArtifactMessage { reason: text_field(j, "reason"), target_name, filenames: filenames_of(j) }
}

/// The messages of `cargo build --message-format=json`, one per line; lines
/// that are not JSON are passed over.
pub fn artifact_messages(output: &[u8]) -> (r: Vec<ArtifactMessage>)
    ensures
        r@.len() == json_lines(lines_of(output@)).len(),
        forall|i: int|
            0 <= i < r@.len() ==> #[trigger] message_of(r@[i], json_lines(lines_of(output@))[i]),
{
    let lines = split_lines(output, 0);
    let ghost views = lines@.map_values(|l: Vec<u8>| l@);
    assert(output@.subrange(0, output@.len() as int) =~= output@);
    let mut r: Vec<ArtifactMessage> = Vec::new();
    let mut i: usize = 0;
    while i < lines.len()
        invariant
            views == lines@.map_values(|l: Vec<u8>| l@),
            i <= lines@.len(),
            r@.len() == json_lines(views.subrange(0, i as int)).len(),
            forall|k: int|
                0 <= k < r@.len() ==> #[trigger] message_of(
                    r@[k],
                    json_lines(views.subrange(0, i as int))[k],
                ),
        decreases lines@.len() - i,
    {
        let ghost before = json_lines(views.subrange(0, i as int));
        assert(views.subrange(0, i + 1).drop_last() =~= views.subrange(0, i as int));
        assert(views[i as int] == lines@[i as int]@);
        match parse_json(lines[i].as_slice()) {
            Some(j) => {
                r.push(message_from(&j));
                assert(json_lines(views.subrange(0, i + 1)) == before.push(j@));
            },
            None => {
                assert(json_lines(views.subrange(0, i + 1)) =~= before);
            },
        }
        i += 1;
    }
    assert(views.subrange(0, lines@.len() as int) =~= views);
    r
}

/// The dependency on the Telekio ABI in a generated Tokio manifest.
pub open spec fn telekio_dependency() -> Seq<Seq<char>> {
    seq!["dependencies"@, "telekio"@]
}

/// The manifest of the package that resolves the Telekio ABI: a package of its
/// own, a workspace of its own, and the generated Tokio's dependency on Telekio.
pub open spec fn abi_manifest_of(m: Seq<(Seq<Seq<char>>, LeafView)>) -> Result<
    Seq<(Seq<Seq<char>>, LeafView)>,
    AbiError,
> {
    if !holds(m, telekio_dependency()) {
        Err(AbiError::NoTelekioDependency)
    } else {
        Ok(
            seq![
                (seq!["package"@, "name"@], LeafView::Str("telekio-compiler-abi"@)),
                (seq!["package"@, "version"@], LeafView::Str("0.0.0"@)),
                (seq!["package"@, "edition"@], LeafView::Str("2024"@)),
                (seq!["workspace"@], LeafView::EmptyTable),
            ] + keep_entries(
                m,
                |e: (Seq<Seq<char>>, LeafView)| is_under(telekio_dependency(), e.0),
            ),
        )
    }
}

/// The manifest of the package that resolves the Telekio ABI, made from the
/// generated Tokio's manifest.
pub fn abi_manifest(guest: Manifest) -> (r: Result<Manifest, AbiError>)
    ensures
        match abi_manifest_of(guest@) {
            Ok(m) => r matches Ok(a) && a@ == m,
            Err(e) => r == Err::<Manifest, AbiError>(e),
        },
{
    let dependency = path2("dependencies", "telekio");
    if !guest.holds(dependency.as_slice()) {
        return Err(AbiError::NoTelekioDependency);
    }
    let ghost all = guest@;
    let ghost keep = |e: (Seq<Seq<char>>, LeafView)| is_under(telekio_dependency(), e.0);
    let mut entries: Vec<Entry> = vec![
        entry(path2("package", "name"), Leaf::Str(owned("telekio-compiler-abi"))),
        entry(path2("package", "version"), Leaf::Str(owned("0.0.0"))),
        entry(path2("package", "edition"), Leaf::Str(owned("2024"))),
        entry(path1("workspace"), Leaf::EmptyTable),
    ];
    let ghost head = entry_views(entries@);
    assert(head =~= seq![
        (seq!["package"@, "name"@], LeafView::Str("telekio-compiler-abi"@)),
        (seq!["package"@, "version"@], LeafView::Str("0.0.0"@)),
        (seq!["package"@, "edition"@], LeafView::Str("2024"@)),
        (seq!["workspace"@], LeafView::EmptyTable),
    ]);
    let mut rest = guest.entries;
    let ghost mut taken: int = 0;
    assert(all.subrange(0, 0) =~= Seq::<(Seq<Seq<char>>, LeafView)>::empty());
    assert(entry_views(rest@) =~= all.subrange(0, all.len() as int));
    while rest.len() > 0
        invariant
            keys(dependency@) == telekio_dependency(),
            keep == (|e: (Seq<Seq<char>>, LeafView)| is_under(telekio_dependency(), e.0)),
            0 <= taken <= all.len(),
            entry_views(rest@) == all.subrange(taken, all.len() as int),
            entry_views(entries@) == head + keep_entries(all.subrange(0, taken), keep),
        decreases rest@.len(),
    {
        let ghost before = entry_views(rest@);
        let e = rest.remove(0);
        assert(entry_views(rest@) =~= before.drop_first());
        assert(before[0] == e@);
        assert(all.subrange(0, taken + 1).drop_last() =~= all.subrange(0, taken));
        assert(all.subrange(0, taken + 1).last() == all[taken]);
        assert(all[taken] == before[0]);
        let ghost kept_before = entry_views(entries@);
        let ghost t = taken;
        let ghost prior = keep_entries(all.subrange(0, t), keep);
        assert(keep_entries(all.subrange(0, t + 1), keep) == if keep(all[t]) {
            prior.push(all[t])
        } else {
            prior
        });
        let under = path_under(dependency.as_slice(), &e.path);
        assert(all[t].0 == keys(e.path@));
        assert(keep(all[t]) == is_under(telekio_dependency(), all[t].0));
        assert(under == keep(all[t]));
        if under {
            entries.push(e);
            assert(entry_views(entries@) =~= kept_before.push(all[taken]));
            assert(entry_views(entries@) =~= head + prior.push(all[t]));
        }
        proof {
            taken = taken + 1;
        }
        assert(all.subrange(taken, all.len() as int) =~= entry_views(rest@));
    }
    assert(all.subrange(0, all.len() as int) =~= all);
    Ok(Manifest { entries })
}

} // verus!
