//! Replaying a recorded linker command with the artifact archive in place of
//! the recorded object files.
//!
//! A record is the sequence of the command's arguments, each written as its
//! length (eight bytes, little endian) followed by its bytes. The first
//! argument is the linker program. The paths in the command are read with the
//! Unix path syntax of `crate::path`.
pub mod flags;

use vstd::bytes::{spec_u64_from_le_bytes, u64_from_le_bytes};
use vstd::prelude::*;
use vstd::utf8::valid_utf8;

use crate::bytes::{
    clone_all,
    concat,
    contains,
    contains_seq,
    copy_range,
    ends_with,
    eq_bytes,
    has_prefix,
    has_suffix,
    lower,
    starts_with,
    strip_prefix,
    to_ascii_lowercase,
    to_ascii_uppercase,
    upper,
    views,
};
use crate::path::{
    ancestor_named,
    ancestor_named_of,
    extension,
    file_name_of,
    file_stem,
    has_located_parent,
    has_located_parent_of,
    has_root,
    join,
    join_of,
    name_extension_of,
    name_stem_of,
    parent,
    parent_name,
    parent_name_of,
    scan,
};
use self::flags::{
    allow_multiple,
    allow_multiple_bytes,
    bdynamic,
    bdynamic_bytes,
    bstatic,
    bstatic_bytes,
    cc_suffix,
    cc_suffix_bytes,
    clang,
    clang_bytes,
    def_flag,
    def_flag_bytes,
    dynamic_list,
    dynamic_list_bytes,
    dynamic_list_eq,
    dynamic_list_eq_bytes,
    etc,
    etc_bytes,
    exported_symbols_list,
    exported_symbols_list_bytes,
    ext_a,
    ext_a_bytes,
    ext_lib,
    ext_lib_bytes,
    ext_o,
    ext_o_bytes,
    ext_obj,
    ext_obj_bytes,
    ext_rlib,
    ext_rlib_bytes,
    ext_telekio,
    ext_telekio_bytes,
    flavor,
    flavor_bytes,
    force_multiple,
    force_multiple_bytes,
    gcc,
    gcc_bytes,
    ilk_flag,
    ilk_flag_bytes,
    implib_flag,
    implib_flag_bytes,
    map_eq,
    map_eq_bytes,
    map_long,
    map_long_bytes,
    map_short,
    map_short_bytes,
    natvis_flag,
    natvis_flag_bytes,
    out_flag,
    out_flag_bytes,
    out_implib,
    out_implib_bytes,
    out_implib_eq,
    out_implib_eq_bytes,
    output_eq,
    output_eq_bytes,
    output_short,
    output_short_bytes,
    pdb_flag,
    pdb_flag_bytes,
    rustc,
    rustc_bytes,
    rustlib,
    rustlib_bytes,
    telekio_suffix,
    telekio_suffix_bytes,
    version_script_eq,
    version_script_eq_bytes,
    wl_allow_multiple,
    wl_allow_multiple_bytes,
    wl_prefix,
    wl_prefix_bytes,
    xlinker,
    xlinker_bytes,
};

verus! {

#[derive(Clone, Copy, Debug, PartialEq, Eq, Structural)]
pub enum RecordError {
    /// The record ended before an argument's length.
    TruncatedLength,
    /// The record ended inside an argument.
    TruncatedArgument,
    /// The record holds no command at all.
    EmptyCommand,
    /// The linker command has no file inputs to replace.
    NoFileInputs,
}

/// The flags that let the replayed link accept symbols defined twice.
pub struct Spec {
    pub duplicate: Vec<Vec<u8>>,
}

/// A recorded linker command, ready to replay against an archive.
pub struct Record {
    pub arguments: Vec<Vec<u8>>,
    pub spec: Spec,
}

/// A proxy source file whose link is recorded, and the entry that it builds as a static library.
pub struct Mapping {
    pub proxy: Vec<u8>,
    pub entry: Vec<u8>,
}

/// `std::str::from_utf8`: it succeeds exactly when the bytes are well-formed UTF-8.
#[verifier::external_body]
fn is_utf8(bytes: &[u8]) -> (r: bool)
    ensures
        r == valid_utf8(bytes@),
{
    std::str::from_utf8(bytes).is_ok()
}

// ---------------------------------------------------------------------------
// The record format.

/// The arguments that a record holds.
pub open spec fn decode_record(bytes: Seq<u8>) -> Result<Seq<Seq<u8>>, RecordError>
    decreases bytes.len(),
{
    if bytes.len() == 0 {
        Ok(seq![])
    } else if bytes.len() < 8 {
        Err(RecordError::TruncatedLength)
    } else {
        let length = spec_u64_from_le_bytes(bytes.subrange(0, 8));
        if length > bytes.len() - 8 {
            Err(RecordError::TruncatedArgument)
        } else {
            match decode_record(bytes.subrange(8 + length, bytes.len() as int)) {
                Ok(rest) => Ok(seq![bytes.subrange(8, 8 + length)] + rest),
                Err(error) => Err(error),
            }
        }
    }
}

/// The record that holds the given arguments.
pub open spec fn encode_record(arguments: Seq<Seq<u8>>) -> Seq<u8>
    decreases arguments.len(),
{
    if arguments.len() == 0 {
        seq![]
    } else {
        vstd::bytes::spec_u64_to_le_bytes(arguments[0].len() as u64) + arguments[0]
            + encode_record(arguments.drop_first())
    }
}

pub open spec fn prepend(
    done: Seq<Seq<u8>>,
    rest: Result<Seq<Seq<u8>>, RecordError>,
) -> Result<Seq<Seq<u8>>, RecordError> {
    match rest {
        Ok(rest) => Ok(done + rest),
        Err(error) => Err(error),
    }
}

/// Splits a record into the arguments that it holds.
pub fn decode_record_bytes(record: &[u8]) -> (r: Result<Vec<Vec<u8>>, RecordError>)
    ensures
        match r {
            Ok(arguments) => decode_record(record@) == Ok::<Seq<Seq<u8>>, RecordError>(views(arguments@)),
            Err(error) => decode_record(record@) == Err::<Seq<Seq<u8>>, RecordError>(error),
        },
{
    let n = record.len();
    let mut position: usize = 0;
    let mut command: Vec<Vec<u8>> = Vec::new();
    assert(record@.subrange(0, n as int) =~= record@);
    assert(views(command@) =~= Seq::<Seq<u8>>::empty());
    assert(decode_record(record@) =~= prepend(views(command@), decode_record(record@)));
    while position < n
        invariant
            n == record@.len(),
            position <= n,
            decode_record(record@) == prepend(
                views(command@),
                decode_record(record@.subrange(position as int, n as int)),
            ),
        decreases n - position,
    {
        let ghost rest = record@.subrange(position as int, n as int);
        if n - position < 8 {
            return Err(RecordError::TruncatedLength);
        }
        let length_bytes = copy_range(record, position, position + 8);
        assert(length_bytes@ =~= rest.subrange(0, 8));
        let length = u64_from_le_bytes(length_bytes.as_slice());
        if length > (n - position - 8) as u64 {
            return Err(RecordError::TruncatedArgument);
        }
        let size = length as usize;
        let argument = copy_range(record, position + 8, position + 8 + size);
        assert(argument@ =~= rest.subrange(8, 8 + length));
        assert(rest.subrange(8 + length, rest.len() as int) =~= record@.subrange(
            position + 8 + size,
            n as int,
        ));
        let ghost tail = record@.subrange(position + 8 + size, n as int);
        assert(decode_record(rest) == prepend(seq![argument@], decode_record(tail)));
        let ghost before = views(command@);
        assert(prepend(before, prepend(seq![argument@], decode_record(tail))) == prepend(
            before + seq![argument@],
            decode_record(tail),
        )) by {
            match decode_record(tail) {
                Ok(t) => {
                    assert(before + (seq![argument@] + t) =~= before + seq![argument@] + t);
                },
                Err(_) => {},
            }
        }
        command.push(argument);
        assert(views(command@) =~= before + seq![argument@]);
        position = position + 8 + size;
    }
    assert(record@.subrange(n as int, n as int) =~= Seq::<u8>::empty());
    assert(views(command@) + Seq::<Seq<u8>>::empty() =~= views(command@));
    Ok(command)
}

// ---------------------------------------------------------------------------
// Paths in linker arguments.

/// The parent directory's name starts with `rustc` (ASCII case ignored): a
/// temporary directory of the compiler. The path is split with Unix syntax
/// (`/` only, no drive prefix); see `crate::path`.
pub open spec fn is_temporary_path(path: Seq<u8>) -> bool {
    match parent_name(path) {
        Some(name) => has_prefix(lower(name), rustc()),
        None => false,
    }
}

/// A natvis file shipped in the toolchain's `rustlib/.../etc` directory.
pub open spec fn is_rustc_natvis(path: Seq<u8>) -> bool {
    parent_name(path) == Some(etc()) && ancestor_named(path, rustlib())
}

/// `argument` is `prefix` followed by a temporary path.
pub open spec fn is_temporary_linker_output(argument: Seq<u8>, prefix: Seq<u8>) -> bool {
    has_prefix(argument, prefix) && is_temporary_path(
        argument.subrange(prefix.len() as int, argument.len() as int),
    )
}

pub open spec fn is_input_extension(extension: Seq<u8>) -> bool {
    extension == ext_o() || extension == ext_obj() || extension == ext_rlib() || extension
        == ext_lib() || extension == ext_a() || extension == ext_telekio()
}

/// An object or library file named with a directory, the path read with Unix
/// syntax (`/` only, no drive prefix); see `crate::path`.
pub open spec fn is_linker_input(path: Seq<u8>) -> bool {
    (has_root(path) || has_located_parent(path)) && match extension(path) {
        Some(extension) => is_input_extension(extension),
        None => false,
    }
}

pub fn temporary_path(path: &[u8]) -> (r: bool)
    ensures
        r == is_temporary_path(path@),
{
    match parent_name_of(path) {
        Some(name) => {
            let lowered = to_ascii_lowercase(name.as_slice());
            starts_with(lowered.as_slice(), rustc_bytes())
        },
        None => false,
    }
}

pub fn rustc_natvis(path: &[u8]) -> (r: bool)
    ensures
        r == is_rustc_natvis(path@),
{
    let parent_is_etc = match parent_name_of(path) {
        Some(name) => eq_bytes(name.as_slice(), etc_bytes()),
        None => false,
    };
    parent_is_etc && ancestor_named_of(path, rustlib_bytes())
}

pub fn temporary_linker_output(argument: &[u8], prefix: &[u8]) -> (r: bool)
    ensures
        r == is_temporary_linker_output(argument@, prefix@),
{
    match strip_prefix(argument, prefix) {
        Some(path) => temporary_path(path.as_slice()),
        None => false,
    }
}

pub fn linker_input(path: &[u8]) -> (r: bool)
    ensures
        r == is_linker_input(path@),
{
    let located = (path.len() > 0 && path[0] == 47) || has_located_parent_of(path);
    if !located {
        return false;
    }
    let extension = match file_name_of(path) {
        Some(name) => name_extension_of(name.as_slice()),
        None => None,
    };
    match extension {
        Some(extension) => {
            let e = extension.as_slice();
            eq_bytes(e, ext_o_bytes()) || eq_bytes(e, ext_obj_bytes()) || eq_bytes(
                e,
                ext_rlib_bytes(),
            ) || eq_bytes(e, ext_lib_bytes()) || eq_bytes(e, ext_a_bytes()) || eq_bytes(
                e,
                ext_telekio_bytes(),
            )
        },
        None => false,
    }
}

// ---------------------------------------------------------------------------
// Removing the outputs of the recorded link.

pub open spec fn is_mapping_flag(argument: Seq<u8>) -> bool {
    argument == exported_symbols_list() || argument == dynamic_list() || argument == map_short()
        || argument == map_long()
}

/// `argument` names an output together with the argument after it.
pub open spec fn is_output_pair(argument: Seq<u8>, next: Option<Seq<u8>>) -> bool {
    match next {
        None => false,
        Some(next) => argument == output_short() || argument == out_implib() || (is_mapping_flag(
            argument,
        ) && is_temporary_path(next)),
    }
}

/// `argument` names an output by itself.
pub open spec fn is_output_argument(argument: Seq<u8>, msvc_output: bool) -> bool {
    let u = upper(argument);
    (msvc_output && (has_prefix(u, out_flag()) || has_prefix(u, pdb_flag()) || has_prefix(
        u,
        implib_flag(),
    ) || has_prefix(u, ilk_flag()) || (has_prefix(u, def_flag()) && is_temporary_path(
        u.subrange(def_flag().len() as int, u.len() as int),
    )) || (has_prefix(u, natvis_flag()) && is_rustc_natvis(
        u.subrange(natvis_flag().len() as int, u.len() as int),
    )))) || has_prefix(argument, output_eq()) || has_prefix(argument, out_implib_eq())
        || is_temporary_linker_output(argument, map_eq()) || is_temporary_linker_output(
        argument,
        version_script_eq(),
    ) || is_temporary_linker_output(argument, dynamic_list_eq())
}

/// The pieces of `s` between commas, empty pieces included.
pub open spec fn split_commas(s: Seq<u8>) -> Seq<Seq<u8>>
    decreases s.len(),
{
    if s.len() == 0 {
        seq![seq![]]
    } else {
        let parts = split_commas(s.drop_last());
        if s.last() == 44 {
            parts.push(seq![])
        } else {
            parts.update(parts.len() - 1, parts.last().push(s.last()))
        }
    }
}

/// The pieces joined with commas.
pub open spec fn join_commas(parts: Seq<Seq<u8>>) -> Seq<u8>
    decreases parts.len(),
{
    if parts.len() == 0 {
        seq![]
    } else if parts.len() == 1 {
        parts[0]
    } else {
        join_commas(parts.drop_last()) + seq![44u8] + parts.last()
    }
}

/// The pieces of a `-Wl,` argument that do not name an output of the link.
pub open spec fn kept_driver_parts(parts: Seq<Seq<u8>>) -> Seq<Seq<u8>>
    decreases parts.len(),
{
    if parts.len() == 0 {
        seq![]
    } else {
        let part = parts[0];
        let has_next = parts.len() >= 2;
        if (part == output_short() || part == out_implib()) && has_next {
            kept_driver_parts(parts.skip(2))
        } else if is_mapping_flag(part) && has_next && is_temporary_path(parts[1]) {
            kept_driver_parts(parts.skip(2))
        } else if is_temporary_linker_output(part, map_eq()) || is_temporary_linker_output(
            part,
            version_script_eq(),
        ) || is_temporary_linker_output(part, dynamic_list_eq()) {
            kept_driver_parts(parts.skip(1))
        } else {
            seq![part] + kept_driver_parts(parts.skip(1))
        }
    }
}

/// A `-Wl,` argument without the pieces that name outputs; nothing when no piece is left.
pub open spec fn driver_argument(argument: Seq<u8>) -> Option<Seq<u8>> {
    if !valid_utf8(argument) || !has_prefix(argument, wl_prefix()) {
        None
    } else {
        let kept = kept_driver_parts(
            split_commas(argument.subrange(wl_prefix().len() as int, argument.len() as int)),
        );
        if kept.len() == 0 {
            None
        } else {
            Some(wl_prefix() + join_commas(kept))
        }
    }
}

/// The arguments without those that name outputs of the recorded link.
pub open spec fn strip_outputs(arguments: Seq<Seq<u8>>, msvc_output: bool) -> Seq<Seq<u8>>
    decreases arguments.len(),
{
    if arguments.len() == 0 {
        seq![]
    } else if arguments[0] == xlinker() && arguments.len() >= 2 {
        let argument = arguments[1];
        let next = if arguments.len() >= 4 && arguments[2] == xlinker() {
            Some(arguments[3])
        } else {
            None
        };
        if is_output_pair(argument, next) {
            strip_outputs(arguments.skip(4), msvc_output)
        } else if is_output_argument(argument, msvc_output) {
            strip_outputs(arguments.skip(2), msvc_output)
        } else {
            seq![arguments[0], arguments[1]] + strip_outputs(arguments.skip(2), msvc_output)
        }
    } else if is_output_pair(
        arguments[0],
        if arguments.len() >= 2 {
            Some(arguments[1])
        } else {
            None
        },
    ) {
        strip_outputs(arguments.skip(2), msvc_output)
    } else if is_output_argument(arguments[0], msvc_output) {
        strip_outputs(arguments.skip(1), msvc_output)
    } else if valid_utf8(arguments[0]) && has_prefix(arguments[0], wl_prefix()) {
        match driver_argument(arguments[0]) {
            Some(kept) => seq![kept] + strip_outputs(arguments.skip(1), msvc_output),
            None => strip_outputs(arguments.skip(1), msvc_output),
        }
    } else {
        seq![arguments[0]] + strip_outputs(arguments.skip(1), msvc_output)
    }
}

/// A leading `-flavor` and its value go, then the outputs.
pub open spec fn removed_outputs(arguments: Seq<Seq<u8>>, msvc_output: bool) -> Seq<Seq<u8>> {
    if arguments.len() > 1 && arguments[0] == flavor() {
        strip_outputs(arguments.skip(2), msvc_output)
    } else {
        strip_outputs(arguments, msvc_output)
    }
}

pub fn output_pair(argument: &[u8], next: Option<&[u8]>) -> (r: bool)
    ensures
        r == is_output_pair(
            argument@,
            match next {
                Some(n) => Some(n@),
                None => None,
            },
        ),
{
    let next = match next {
        Some(next) => next,
        None => return false,
    };
    if eq_bytes(argument, output_short_bytes()) || eq_bytes(argument, out_implib_bytes()) {
        return true;
    }
    let mapping = eq_bytes(argument, exported_symbols_list_bytes()) || eq_bytes(
        argument,
        dynamic_list_bytes(),
    ) || eq_bytes(argument, map_short_bytes()) || eq_bytes(argument, map_long_bytes());
    mapping && temporary_path(next)
}

pub fn output_argument(argument: &[u8], msvc_output: bool) -> (r: bool)
    ensures
        r == is_output_argument(argument@, msvc_output),
{
    let u = to_ascii_uppercase(argument);
    let us = u.as_slice();
    if msvc_output {
        if starts_with(us, out_flag_bytes()) || starts_with(us, pdb_flag_bytes()) || starts_with(
            us,
            implib_flag_bytes(),
        ) || starts_with(us, ilk_flag_bytes()) {
            return true;
        }
        if let Some(path) = strip_prefix(us, def_flag_bytes()) {
            if temporary_path(path.as_slice()) {
                return true;
            }
        }
        if let Some(path) = strip_prefix(us, natvis_flag_bytes()) {
            if rustc_natvis(path.as_slice()) {
                return true;
            }
        }
    }
    starts_with(argument, output_eq_bytes()) || starts_with(argument, out_implib_eq_bytes())
        || temporary_linker_output(argument, map_eq_bytes()) || temporary_linker_output(
        argument,
        version_script_eq_bytes(),
    ) || temporary_linker_output(argument, dynamic_list_eq_bytes())
}

proof fn lemma_split_commas_nonempty(s: Seq<u8>)
    ensures
        split_commas(s).len() >= 1,
    decreases s.len(),
{
    if s.len() > 0 {
        lemma_split_commas_nonempty(s.drop_last());
    }
}

/// Splits at commas.
fn split_commas_of(s: &[u8]) -> (r: Vec<Vec<u8>>)
    ensures
        views(r@) == split_commas(s@),
{
    let mut parts: Vec<Vec<u8>> = Vec::new();
    let mut current: Vec<u8> = Vec::new();
    let mut i: usize = 0;
    assert(s@.subrange(0, 0) =~= Seq::<u8>::empty());
    assert(views(parts@).push(current@) =~= split_commas(s@.subrange(0, 0)));
    while i < s.len()
        invariant
            i <= s@.len(),
            views(parts@).push(current@) == split_commas(s@.subrange(0, i as int)),
        decreases s@.len() - i,
    {
        let ghost head = s@.subrange(0, i as int);
        assert(s@.subrange(0, i + 1).drop_last() =~= head);
        proof {
            lemma_split_commas_nonempty(head);
        }
        if s[i] == 44 {
            let finished = current;
            current = Vec::new();
            let ghost before = views(parts@);
            parts.push(finished);
            assert(views(parts@) =~= before.push(finished@));
            assert(views(parts@).push(current@) =~= split_commas(head).push(seq![]));
        } else {
            let ghost before = views(parts@);
            current.push(s[i]);
            assert(views(parts@).push(current@) =~= split_commas(head).update(
                split_commas(head).len() - 1,
                split_commas(head).last().push(s@[i as int]),
            ));
        }
        i += 1;
    }
    assert(s@.subrange(0, s@.len() as int) =~= s@);
    let ghost before = views(parts@);
    parts.push(current);
    assert(views(parts@) =~= before.push(current@));
    parts
}

proof fn lemma_join_commas_push(parts: Seq<Seq<u8>>, part: Seq<u8>)
    requires
        parts.len() >= 1,
    ensures
        join_commas(parts.push(part)) == join_commas(parts) + seq![44u8] + part,
{
    assert(parts.push(part).drop_last() =~= parts);
}

/// Joins with commas.
fn join_commas_of(parts: &Vec<Vec<u8>>) -> (r: Vec<u8>)
    ensures
        r@ == join_commas(views(parts@)),
{
    let mut r: Vec<u8> = Vec::new();
    if parts.len() == 0 {
        return r;
    }
    r = copy_range(parts[0].as_slice(), 0, parts[0].len());
    assert(views(parts@).subrange(0, 1) =~= seq![parts@[0]@]);
    let mut i: usize = 1;
    while i < parts.len()
        invariant
            1 <= i <= parts@.len(),
            r@ == join_commas(views(parts@).subrange(0, i as int)),
        decreases parts@.len() - i,
    {
        let ghost head = views(parts@).subrange(0, i as int);
        assert(views(parts@).subrange(0, i + 1) =~= head.push(parts@[i as int]@));
        proof {
            lemma_join_commas_push(head, parts@[i as int]@);
        }
        let with_comma = concat(r.as_slice(), &[44u8]);
        r = concat(with_comma.as_slice(), parts[i].as_slice());
        i += 1;
    }
    assert(views(parts@).subrange(0, parts@.len() as int) =~= views(parts@));
    r
}

/// Keeps the pieces of a `-Wl,` argument that do not name outputs.
fn kept_driver_parts_of(parts: &Vec<Vec<u8>>) -> (r: Vec<Vec<u8>>)
    ensures
        views(r@) == kept_driver_parts(views(parts@)),
{
    let mut kept: Vec<Vec<u8>> = Vec::new();
    let mut index: usize = 0;
    let ghost all = views(parts@);
    assert(all.skip(0) =~= all);
    while index < parts.len()
        invariant
            all == views(parts@),
            index <= parts@.len(),
            kept_driver_parts(all) == views(kept@) + kept_driver_parts(all.skip(index as int)),
        decreases parts@.len() - index,
    {
        let ghost rest = all.skip(index as int);
        let part = parts[index].as_slice();
        assert(rest[0] == part@);
        let has_next = index + 1 < parts.len();
        if has_next {
            assert(rest[1] == parts@[index + 1]@);
        }
        let is_output = eq_bytes(part, output_short_bytes()) || eq_bytes(part, out_implib_bytes());
        let mapping = eq_bytes(part, exported_symbols_list_bytes()) || eq_bytes(
            part,
            dynamic_list_bytes(),
        ) || eq_bytes(part, map_short_bytes()) || eq_bytes(part, map_long_bytes());
        if is_output && has_next {
            assert(rest.skip(2) =~= all.skip(index + 2));
            index += 2;
            continue;
        }
        if mapping && has_next && temporary_path(parts[index + 1].as_slice()) {
            assert(rest.skip(2) =~= all.skip(index + 2));
            index += 2;
            continue;
        }
        assert(rest.skip(1) =~= all.skip(index + 1));
        if temporary_linker_output(part, map_eq_bytes()) || temporary_linker_output(
            part,
            version_script_eq_bytes(),
        ) || temporary_linker_output(part, dynamic_list_eq_bytes()) {
            index += 1;
            continue;
        }
        let ghost before = views(kept@);
        kept.push(copy_range(part, 0, part.len()));
        assert(part@.subrange(0, part@.len() as int) =~= part@);
        assert(views(kept@) =~= before + seq![part@]);
        index += 1;
    }
    assert(all.skip(index as int) =~= Seq::<Seq<u8>>::empty());
    assert(views(kept@) + Seq::<Seq<u8>>::empty() =~= views(kept@));
    kept
}

/// A `-Wl,` argument without the pieces that name outputs of the link.
pub fn filter_driver_argument(argument: &[u8]) -> (r: Option<Vec<u8>>)
    ensures
        match r {
            Some(v) => driver_argument(argument@) == Some(v@),
            None => driver_argument(argument@) is None,
        },
{
    if !is_utf8(argument) {
        return None;
    }
    let rest = match strip_prefix(argument, wl_prefix_bytes()) {
        Some(rest) => rest,
        None => return None,
    };
    let parts = split_commas_of(rest.as_slice());
    let kept = kept_driver_parts_of(&parts);
    if kept.len() == 0 {
        return None;
    }
    let joined = join_commas_of(&kept);
    Some(concat(wl_prefix_bytes(), joined.as_slice()))
}

/// The arguments of the recorded link without its outputs.
pub fn remove_outputs(arguments: &[Vec<u8>], msvc_output: bool) -> (r: Vec<Vec<u8>>)
    ensures
        views(r@) == removed_outputs(views(arguments@), msvc_output),
{
    let ghost given = views(arguments@);
    let mut index: usize = 0;
    if arguments.len() > 1 && eq_bytes(arguments[0].as_slice(), flavor_bytes()) {
        index = 2;
    }
    let ghost start = index as int;
    assert(given.skip(0) =~= given);
    assert(removed_outputs(given, msvc_output) == strip_outputs(given.skip(start), msvc_output));
    let mut filtered: Vec<Vec<u8>> = Vec::new();
    while index < arguments.len()
        invariant
            given == views(arguments@),
            start <= index,
            index <= arguments@.len(),
            removed_outputs(given, msvc_output) == views(filtered@) + strip_outputs(
                given.skip(index as int),
                msvc_output,
            ),
        decreases arguments@.len() - index,
    {
        let ghost rest = given.skip(index as int);
        let current = arguments[index].as_slice();
        assert(rest[0] == current@);
        let ghost before = views(filtered@);
        if eq_bytes(current, xlinker_bytes()) && index + 1 < arguments.len() {
            let argument = arguments[index + 1].as_slice();
            assert(rest[1] == argument@);
            let next: Option<&[u8]> = if arguments.len() - index > 3 && eq_bytes(
                arguments[index + 2].as_slice(),
                xlinker_bytes(),
            ) {
                assert(rest[2] == arguments@[index + 2]@);
                assert(rest[3] == arguments@[index + 3]@);
                Some(arguments[index + 3].as_slice())
            } else {
                if index + 2 < arguments.len() {
                    assert(rest[2] == arguments@[index + 2]@);
                }
                None
            };
            if output_pair(argument, next) {
                assert(rest.skip(4) =~= given.skip(index + 4));
                index += 4;
                continue;
            }
            assert(rest.skip(2) =~= given.skip(index + 2));
            if output_argument(argument, msvc_output) {
                index += 2;
                continue;
            }
            filtered.push(copy_range(current, 0, current.len()));
            filtered.push(copy_range(argument, 0, argument.len()));
            assert(current@.subrange(0, current@.len() as int) =~= current@);
            assert(argument@.subrange(0, argument@.len() as int) =~= argument@);
            assert(views(filtered@) =~= before + seq![current@, argument@]);
            index += 2;
            continue;
        }
        let next: Option<&[u8]> = if index + 1 < arguments.len() {
            assert(rest[1] == arguments@[index + 1]@);
            Some(arguments[index + 1].as_slice())
        } else {
            None
        };
        if output_pair(current, next) {
            assert(rest.skip(2) =~= given.skip(index + 2));
            index += 2;
            continue;
        }
        assert(rest.skip(1) =~= given.skip(index + 1));
        if output_argument(current, msvc_output) {
            index += 1;
            continue;
        }
        if is_utf8(current) && starts_with(current, wl_prefix_bytes()) {
            if let Some(kept) = filter_driver_argument(current) {
                filtered.push(kept);
                assert(views(filtered@) =~= before + seq![filtered@.last()@]);
            }
        } else {
            filtered.push(copy_range(current, 0, current.len()));
            assert(current@.subrange(0, current@.len() as int) =~= current@);
            assert(views(filtered@) =~= before + seq![current@]);
        }
        index += 1;
    }
    assert(given.skip(index as int) =~= Seq::<Seq<u8>>::empty());
    assert(views(filtered@) + Seq::<Seq<u8>>::empty() =~= views(filtered@));
    filtered
}


// ---------------------------------------------------------------------------
// Putting the archive in place of the recorded inputs.

/// After `argument`, static linking is on when it was on or `argument` turns it
/// on, unless `argument` turns it off.
pub open spec fn static_mode_after(mode: bool, argument: Seq<u8>) -> bool {
    (mode || argument == bstatic()) && argument != bdynamic()
}

/// Scans the arguments from the left: the non-input arguments, the position
/// among them of the first input, of the first input linked statically, and
/// whether static linking is on at the end.
pub open spec fn input_scan(arguments: Seq<Seq<u8>>, msvc_output: bool) -> (
    Seq<Seq<u8>>,
    Option<int>,
    Option<int>,
    bool,
)
    decreases arguments.len(),
{
    if arguments.len() == 0 {
        (seq![], None, None, msvc_output)
    } else {
        let (recorded, first, first_static, mode) = input_scan(arguments.drop_last(), msvc_output);
        let argument = arguments.last();
        if is_linker_input(argument) {
            (
                recorded,
                if first is Some {
                    first
                } else {
                    Some(recorded.len() as int)
                },
                if mode && first_static is None {
                    Some(recorded.len() as int)
                } else {
                    first_static
                },
                mode,
            )
        } else {
            (recorded.push(argument), first, first_static, static_mode_after(mode, argument))
        }
    }
}

/// Where the archive goes: at the first static input, else at the first input.
pub open spec fn archive_position(arguments: Seq<Seq<u8>>, msvc_output: bool) -> Option<int> {
    let scan = input_scan(arguments, msvc_output);
    if scan.2 is Some {
        scan.2
    } else {
        scan.1
    }
}

/// The replayed arguments: outputs and inputs gone, the archive in place of the inputs.
pub open spec fn filtered_arguments(
    arguments: Seq<Seq<u8>>,
    archive: Seq<u8>,
    msvc_output: bool,
) -> Option<Seq<Seq<u8>>> {
    let removed = removed_outputs(arguments, msvc_output);
    match archive_position(removed, msvc_output) {
        Some(position) => Some(input_scan(removed, msvc_output).0.insert(position, archive)),
        None => None,
    }
}

pub open spec fn opt_int(o: Option<usize>) -> Option<int> {
    match o {
        Some(v) => Some(v as int),
        None => None,
    }
}

proof fn lemma_input_scan_positions(arguments: Seq<Seq<u8>>, msvc_output: bool)
    ensures
        input_scan(arguments, msvc_output).1 matches Some(p) ==> 0 <= p <= input_scan(
            arguments,
            msvc_output,
        ).0.len(),
        input_scan(arguments, msvc_output).2 matches Some(p) ==> 0 <= p <= input_scan(
            arguments,
            msvc_output,
        ).0.len(),
        input_scan(arguments, msvc_output).0.len() <= arguments.len(),
    decreases arguments.len(),
{
    if arguments.len() > 0 {
        lemma_input_scan_positions(arguments.drop_last(), msvc_output);
    }
}

/// The arguments with the archive in place of the linker inputs.
pub fn filter_arguments(arguments: &[Vec<u8>], archive: Vec<u8>, msvc_output: bool) -> (r: Result<
    Vec<Vec<u8>>,
    RecordError,
>)
    ensures
        match r {
            Ok(v) => filtered_arguments(views(arguments@), archive@, msvc_output) == Some(
                views(v@),
            ),
            Err(error) => error == RecordError::NoFileInputs && filtered_arguments(
                views(arguments@),
                archive@,
                msvc_output,
            ) is None,
        },
{
    let removed = remove_outputs(arguments, msvc_output);
    let ghost all = views(removed@);
    let mut recorded: Vec<Vec<u8>> = Vec::new();
    let mut first_file: Option<usize> = None;
    let mut static_file: Option<usize> = None;
    let mut static_mode = msvc_output;
    let mut i: usize = 0;
    assert(all.subrange(0, 0) =~= Seq::<Seq<u8>>::empty());
    while i < removed.len()
        invariant
            all == views(removed@),
            i <= removed@.len(),
            input_scan(all.subrange(0, i as int), msvc_output) == (
                views(recorded@),
                opt_int(first_file),
                opt_int(static_file),
                static_mode,
            ),
            recorded@.len() <= i,
        decreases removed@.len() - i,
    {
        let ghost head = all.subrange(0, i as int);
        assert(all.subrange(0, i + 1).drop_last() =~= head);
        let argument = removed[i].as_slice();
        assert(all.subrange(0, i + 1).last() == argument@);
        if linker_input(argument) {
            if first_file.is_none() {
                first_file = Some(recorded.len());
            }
            if static_mode && static_file.is_none() {
                static_file = Some(recorded.len());
            }
        } else {
            let is_static = eq_bytes(argument, bstatic_bytes());
            let is_dynamic = eq_bytes(argument, bdynamic_bytes());
            static_mode = (static_mode || is_static) && !is_dynamic;
            let ghost before = views(recorded@);
            recorded.push(copy_range(argument, 0, argument.len()));
            assert(argument@.subrange(0, argument@.len() as int) =~= argument@);
            assert(views(recorded@) =~= before.push(argument@));
        }
        i += 1;
    }
    assert(all.subrange(0, all.len() as int) =~= all);
    proof {
        lemma_input_scan_positions(all, msvc_output);
    }
    let position = match static_file {
        Some(p) => p,
        None => match first_file {
            Some(p) => p,
            None => return Err(RecordError::NoFileInputs),
        },
    };
    let ghost before = views(recorded@);
    recorded.insert(position, archive);
    assert(views(recorded@) =~= before.insert(position as int, archive@));
    Ok(recorded)
}

// ---------------------------------------------------------------------------
// Reading a record.

/// Some argument starts with `/OUT:` (ASCII case ignored): an MSVC-style link.
pub open spec fn is_msvc_output(arguments: Seq<Seq<u8>>) -> bool {
    exists|i: int| 0 <= i < arguments.len() && has_prefix(upper(#[trigger] arguments[i]), out_flag())
}

/// Some argument passes options to the linker through the compiler driver.
pub open spec fn mentions_driver(arguments: Seq<Seq<u8>>) -> bool {
    exists|i: int| 0 <= i < arguments.len() && has_prefix(#[trigger] arguments[i], wl_prefix())
}

/// The program's file stem in lower case; empty when it has none or it is not UTF-8.
pub open spec fn linker_name(program: Seq<u8>) -> Seq<u8> {
    match file_stem(program) {
        Some(stem) => if valid_utf8(stem) {
            lower(stem)
        } else {
            seq![]
        },
        None => seq![],
    }
}

/// The linker is driven through a C compiler.
pub open spec fn uses_cc(program: Seq<u8>, arguments: Seq<Seq<u8>>) -> bool {
    let linker = linker_name(program);
    mentions_driver(arguments) || has_suffix(linker, cc_suffix()) || contains_seq(linker, gcc())
        || contains_seq(linker, clang())
}

/// The flag that lets each kind of linker accept duplicate symbols; Apple's
/// linker takes none.
pub open spec fn duplicate_flags(msvc_output: bool, apple: bool, cc: bool) -> Seq<Seq<u8>> {
    if msvc_output {
        seq![force_multiple()]
    } else if apple {
        seq![]
    } else if cc {
        seq![wl_allow_multiple()]
    } else {
        seq![allow_multiple()]
    }
}

/// What a record yields: the replayed arguments and the duplicate-symbol flags.
pub open spec fn record_for(record: Seq<u8>, archive: Seq<u8>, apple: bool) -> Result<
    (Seq<Seq<u8>>, Seq<Seq<u8>>),
    RecordError,
> {
    match decode_record(record) {
        Err(error) => Err(error),
        Ok(command) => if command.len() == 0 {
            Err(RecordError::EmptyCommand)
        } else {
            let program = command[0];
            let arguments = command.drop_first();
            let msvc = is_msvc_output(arguments);
            match filtered_arguments(arguments, archive, msvc) {
                None => Err(RecordError::NoFileInputs),
                Some(filtered) => Ok(
                    (filtered, duplicate_flags(msvc, apple, uses_cc(program, arguments))),
                ),
            }
        },
    }
}

fn msvc_output_of(arguments: &[Vec<u8>]) -> (r: bool)
    ensures
        r == is_msvc_output(views(arguments@)),
{
    let ghost all = views(arguments@);
    let mut i: usize = 0;
    while i < arguments.len()
        invariant
            all == views(arguments@),
            i <= arguments@.len(),
            forall|j: int| 0 <= j < i ==> !has_prefix(upper(#[trigger] all[j]), out_flag()),
        decreases arguments@.len() - i,
    {
        let upper_case = to_ascii_uppercase(arguments[i].as_slice());
        assert(all[i as int] == arguments@[i as int]@);
        if starts_with(upper_case.as_slice(), out_flag_bytes()) {
            return true;
        }
        i += 1;
    }
    false
}

fn mentions_driver_of(arguments: &[Vec<u8>]) -> (r: bool)
    ensures
        r == mentions_driver(views(arguments@)),
{
    let ghost all = views(arguments@);
    let mut i: usize = 0;
    while i < arguments.len()
        invariant
            all == views(arguments@),
            i <= arguments@.len(),
            forall|j: int| 0 <= j < i ==> !has_prefix(#[trigger] all[j], wl_prefix()),
        decreases arguments@.len() - i,
    {
        assert(all[i as int] == arguments@[i as int]@);
        if starts_with(arguments[i].as_slice(), wl_prefix_bytes()) {
            return true;
        }
        i += 1;
    }
    false
}

fn linker_name_of(program: &[u8]) -> (r: Vec<u8>)
    ensures
        r@ == linker_name(program@),
{
    match file_name_of(program) {
        Some(name) => {
            let stem = name_stem_of(name.as_slice());
            if is_utf8(stem.as_slice()) {
                to_ascii_lowercase(stem.as_slice())
            } else {
                Vec::new()
            }
        },
        None => Vec::new(),
    }
}

/// Reads a linker record: the command's arguments with the archive in place of
/// its inputs, and the flags that let the replay accept duplicate symbols.
/// `apple` tells whether the target's vendor is Apple.
pub fn read_record(record: &[u8], archive: Vec<u8>, apple: bool) -> (r: Result<Record, RecordError>)
    ensures
        match r {
            Ok(record_value) => record_for(record@, archive@, apple) == Ok::<
                (Seq<Seq<u8>>, Seq<Seq<u8>>),
                RecordError,
            >((views(record_value.arguments@), views(record_value.spec.duplicate@))),
            Err(error) => record_for(record@, archive@, apple) == Err::<
                (Seq<Seq<u8>>, Seq<Seq<u8>>),
                RecordError,
            >(error),
        },
{
    let command = match decode_record_bytes(record) {
        Ok(command) => command,
        Err(error) => return Err(error),
    };
    if command.len() == 0 {
        return Err(RecordError::EmptyCommand);
    }
    let ghost all = views(command@);
    let program = command[0].as_slice();
    assert(all[0] == program@);
    let mut arguments: Vec<Vec<u8>> = Vec::new();
    let mut i: usize = 1;
    while i < command.len()
        invariant
            all == views(command@),
            1 <= i <= command@.len(),
            views(arguments@) == all.subrange(1, i as int),
        decreases command@.len() - i,
    {
        let item = command[i].as_slice();
        assert(all[i as int] == item@);
        let ghost before = views(arguments@);
        let copied = copy_range(item, 0, item.len());
        assert(item@.subrange(0, item@.len() as int) =~= item@);
        arguments.push(copied);
        assert(views(arguments@) =~= before.push(item@));
        assert(all.subrange(1, i + 1) =~= all.subrange(1, i as int).push(all[i as int]));
        i += 1;
    }
    assert(all.subrange(1, all.len() as int) =~= all.drop_first());
    let msvc_output = msvc_output_of(arguments.as_slice());
    let linker = linker_name_of(program);
    let cc = mentions_driver_of(arguments.as_slice()) || ends_with(linker.as_slice(), cc_suffix_bytes())
        || contains(linker.as_slice(), gcc_bytes()) || contains(linker.as_slice(), clang_bytes());
    let mut duplicate: Vec<Vec<u8>> = Vec::new();
    let flag: &[u8] = if msvc_output {
        force_multiple_bytes()
    } else if cc {
        wl_allow_multiple_bytes()
    } else {
        allow_multiple_bytes()
    };
    if msvc_output || !apple {
        let copied = copy_range(flag, 0, flag.len());
        assert(flag@.subrange(0, flag@.len() as int) =~= flag@);
        duplicate.push(copied);
        assert(views(duplicate@) =~= seq![flag@]);
    }
    assert(views(duplicate@) =~= duplicate_flags(msvc_output, apple, cc));
    let filtered = match filter_arguments(arguments.as_slice(), archive, msvc_output) {
        Ok(filtered) => filtered,
        Err(error) => return Err(error),
    };
    Ok(Record { arguments: filtered, spec: Spec { duplicate } })
}

impl Spec {
    /// The replayed arguments followed by the duplicate-symbol flags.
    pub fn replay(&self, arguments: &[Vec<u8>]) -> (r: Vec<Vec<u8>>)
        ensures
            views(r@) == views(arguments@) + views(self.duplicate@),
    {
        let mut r = clone_all(arguments);
        let mut i: usize = 0;
        let ghost start = views(r@);
        while i < self.duplicate.len()
            invariant
                start == views(arguments@),
                i <= self.duplicate@.len(),
                views(r@) == start + views(self.duplicate@).subrange(0, i as int),
            decreases self.duplicate@.len() - i,
        {
            let flag = self.duplicate[i].as_slice();
            assert(views(self.duplicate@)[i as int] == flag@);
            let ghost before = views(r@);
            let copied = copy_range(flag, 0, flag.len());
            assert(flag@.subrange(0, flag@.len() as int) =~= flag@);
            r.push(copied);
            assert(views(r@) =~= before.push(flag@));
            assert(views(self.duplicate@).subrange(0, i + 1) =~= views(self.duplicate@).subrange(
                0,
                i as int,
            ).push(flag@));
            assert(views(r@) =~= start + views(self.duplicate@).subrange(0, i + 1));
            i += 1;
        }
        assert(views(self.duplicate@).subrange(0, self.duplicate@.len() as int) =~= views(
            self.duplicate@,
        ));
        r
    }
}

/// The archive that a mapping's entry is linked from: `<entry>.telekio` in the records directory.
pub fn archive(records: &[u8], entry: &[u8]) -> (r: Vec<u8>)
    ensures
        r@ == join(records@, entry@ + telekio_suffix()),
{
    let name = concat(entry, telekio_suffix_bytes());
    join_of(records, name.as_slice())
}


// ---------------------------------------------------------------------------
// Laws.

/// Reading a record gives back exactly the arguments that were written into
/// it, each as its length in eight little-endian bytes followed by its bytes.
pub proof fn record_round_trip(arguments: Seq<Seq<u8>>)
    requires
        forall|i: int| 0 <= i < arguments.len() ==> #[trigger] arguments[i].len() <= u64::MAX,
    ensures
        decode_record(encode_record(arguments)) == Ok::<Seq<Seq<u8>>, RecordError>(arguments),
    decreases arguments.len(),
{
    if arguments.len() > 0 {
        let first = arguments[0];
        let rest = arguments.drop_first();
        assert forall|i: int| 0 <= i < rest.len() implies #[trigger] rest[i].len() <= u64::MAX by {
            assert(rest[i] == arguments[i + 1]);
        }
        record_round_trip(rest);
        let length = first.len() as u64;
        let header = vstd::bytes::spec_u64_to_le_bytes(length);
        vstd::bytes::lemma_auto_spec_u64_to_from_le_bytes();
        assert(header.len() == 8);
        let bytes = encode_record(arguments);
        assert(bytes == header + first + encode_record(rest));
        assert(bytes.subrange(0, 8) =~= header);
        assert(bytes.subrange(8, 8 + length) =~= first);
        assert(bytes.subrange(8 + length, bytes.len() as int) =~= encode_record(rest));
        assert(seq![first] + rest =~= arguments);
        assert(spec_u64_from_le_bytes(bytes.subrange(0, 8)) == length);
        assert(length as int == first.len());
        assert(decode_record(bytes) == prepend(seq![first], decode_record(encode_record(rest))));
    } else {
        assert(arguments =~= Seq::<Seq<u8>>::empty());
    }
}

proof fn lemma_input_scan_finds_inputs(arguments: Seq<Seq<u8>>, msvc_output: bool)
    ensures
        (input_scan(arguments, msvc_output).1 is None) <==> (forall|i: int|
            0 <= i < arguments.len() ==> !is_linker_input(#[trigger] arguments[i])),
        input_scan(arguments, msvc_output).2 is Some ==> input_scan(arguments, msvc_output).1 is Some,
    decreases arguments.len(),
{
    if arguments.len() > 0 {
        let init = arguments.drop_last();
        lemma_input_scan_finds_inputs(init, msvc_output);
        assert forall|i: int| 0 <= i < init.len() implies init[i] == arguments[i] by {}
        if input_scan(arguments, msvc_output).1 is None {
            assert forall|i: int| 0 <= i < arguments.len() implies !is_linker_input(
                #[trigger] arguments[i],
            ) by {
                if i < init.len() {
                    assert(init[i] == arguments[i]);
                }
            }
        }
    }
}

/// The replay keeps the non-input arguments in order and puts the archive
/// among them; it fails exactly when no argument left after removing the
/// outputs is a linker input.
pub proof fn filtered_arguments_law(arguments: Seq<Seq<u8>>, archive: Seq<u8>, msvc_output: bool)
    ensures
        ({
            let removed = removed_outputs(arguments, msvc_output);
            match filtered_arguments(arguments, archive, msvc_output) {
                Some(filtered) => exists|p: int|
                    0 <= p < filtered.len() && filtered[p] == archive && filtered.remove(p)
                        == input_scan(removed, msvc_output).0,
                None => forall|i: int|
                    0 <= i < removed.len() ==> !is_linker_input(#[trigger] removed[i]),
            }
        }),
{
    let removed = removed_outputs(arguments, msvc_output);
    lemma_input_scan_finds_inputs(removed, msvc_output);
    lemma_input_scan_positions(removed, msvc_output);
    match filtered_arguments(arguments, archive, msvc_output) {
        Some(filtered) => {
            let p = archive_position(removed, msvc_output)->Some_0;
            let recorded = input_scan(removed, msvc_output).0;
            assert(filtered == recorded.insert(p, archive));
            assert(filtered.remove(p) =~= recorded);
            assert(filtered[p] == archive);
        },
        None => {},
    }
}

/// The lower-cased file stem of a linker program, empty when it has none or
/// the stem is not UTF-8 (so that it cannot name a compiler driver).
pub open spec fn program_stem(program: Seq<u8>) -> Seq<u8> {
    match file_stem(program) {
        Some(stem) => if valid_utf8(stem) {
            lower(stem)
        } else {
            seq![]
        },
        None => seq![],
    }
}

/// `needle` occurs in `s` at some position.
pub open spec fn occurs_in(s: Seq<u8>, needle: Seq<u8>) -> bool {
    exists|i: int| 0 <= i && i + needle.len() <= s.len() && #[trigger] s.subrange(i, i + needle.len()) == needle
}

/// Which flag lets the replayed link accept duplicate symbols. An MSVC-style
/// link (an argument that starts with `/OUT:`, case ignored) gets
/// `/FORCE:MULTIPLE`. Otherwise an Apple target gets none; a link through a C
/// compiler driver (an argument that starts with `-Wl,`, or a program whose
/// lower-cased file stem ends in `cc` or contains `gcc` or `clang`) gets
/// `-Wl,--allow-multiple-definition`, which the driver hands on to the linker;
/// and a bare linker gets `--allow-multiple-definition`.
pub proof fn duplicate_flag_law(record: Seq<u8>, archive: Seq<u8>, apple: bool)
    ensures
        record_for(record, archive, apple) matches Ok((_, duplicate)) ==> {
            let command = decode_record(record)->Ok_0;
            let program = command[0];
            let arguments = command.drop_first();
            let msvc = exists|i: int|
                0 <= i < arguments.len() && has_prefix(
                    upper(#[trigger] arguments[i]),
                    seq![47u8, 79, 85, 84, 58],
                );
            let stem = program_stem(program);
            let driver = (exists|i: int|
                0 <= i < arguments.len() && has_prefix(
                    #[trigger] arguments[i],
                    seq![45u8, 87, 108, 44],
                )) || has_suffix(stem, seq![99u8, 99]) || occurs_in(stem, seq![103u8, 99, 99])
                || occurs_in(stem, seq![99u8, 108, 97, 110, 103]);
            &&& msvc ==> duplicate == seq![
                seq![47u8, 70, 79, 82, 67, 69, 58, 77, 85, 76, 84, 73, 80, 76, 69],
            ]
            &&& !msvc && apple ==> duplicate.len() == 0
            &&& !msvc && !apple && driver ==> duplicate == seq![
                seq![
                    45u8, 87, 108, 44, 45, 45, 97, 108, 108, 111, 119, 45, 109, 117, 108, 116,
                    105, 112, 108, 101, 45, 100, 101, 102, 105, 110, 105, 116, 105, 111, 110,
                ],
            ]
            &&& !msvc && !apple && !driver ==> duplicate == seq![
                seq![
                    45u8, 45, 97, 108, 108, 111, 119, 45, 109, 117, 108, 116, 105, 112, 108, 101,
                    45, 100, 101, 102, 105, 110, 105, 116, 105, 111, 110,
                ],
            ]
        },
{
    if let Ok((_, duplicate)) = record_for(record, archive, apple) {
        let command = decode_record(record)->Ok_0;
        let program = command[0];
        let arguments = command.drop_first();
        assert(linker_name(program) == program_stem(program));
        assert(contains_seq(linker_name(program), gcc()) == occurs_in(
            program_stem(program),
            seq![103u8, 99, 99],
        ));
        assert(contains_seq(linker_name(program), clang()) == occurs_in(
            program_stem(program),
            seq![99u8, 108, 97, 110, 103],
        ));
    }
}

/// The arguments that are not linker inputs, in order.
pub open spec fn non_inputs(a: Seq<Seq<u8>>) -> Seq<Seq<u8>> {
    a.filter(|x: Seq<u8>| !is_linker_input(x))
}

/// Static linking is on at position `k`: from the start for an MSVC-style link
/// with no `-Wl,-Bdynamic` since, or after a `-Wl,-Bstatic` that no
/// `-Wl,-Bdynamic` has followed. Only arguments that are not linker inputs switch it.
pub open spec fn linked_statically_at(a: Seq<Seq<u8>>, k: int, msvc_output: bool) -> bool {
    ||| msvc_output && forall|l: int|
        0 <= l < k && !is_linker_input(#[trigger] a[l]) ==> a[l] != seq![
            45u8, 87, 108, 44, 45, 66, 100, 121, 110, 97, 109, 105, 99,
        ]
    ||| exists|j: int|
        0 <= j < k && !is_linker_input(#[trigger] a[j]) && a[j] == seq![
            45u8, 87, 108, 44, 45, 66, 115, 116, 97, 116, 105, 99,
        ] && forall|l: int|
            j < l < k && !is_linker_input(#[trigger] a[l]) ==> a[l] != seq![
                45u8, 87, 108, 44, 45, 66, 100, 121, 110, 97, 109, 105, 99,
            ]
}

/// `k` is the first linker input of `a`.
pub open spec fn first_input_at(a: Seq<Seq<u8>>, k: int) -> bool {
    &&& 0 <= k < a.len()
    &&& is_linker_input(a[k])
    &&& forall|l: int| 0 <= l < k ==> !is_linker_input(#[trigger] a[l])
}

/// `k` is the first linker input of `a` that is linked statically.
pub open spec fn first_static_input_at(a: Seq<Seq<u8>>, k: int, msvc_output: bool) -> bool {
    &&& 0 <= k < a.len()
    &&& is_linker_input(a[k])
    &&& linked_statically_at(a, k, msvc_output)
    &&& forall|l: int|
        0 <= l < k ==> !(is_linker_input(#[trigger] a[l]) && linked_statically_at(a, l, msvc_output))
}

/// No linker input of `a` is linked statically.
pub open spec fn no_static_input(a: Seq<Seq<u8>>, msvc_output: bool) -> bool {
    forall|l: int|
        0 <= l < a.len() ==> !(is_linker_input(#[trigger] a[l]) && linked_statically_at(
            a,
            l,
            msvc_output,
        ))
}

proof fn lemma_static_prefix(a: Seq<Seq<u8>>, k: int, msvc_output: bool)
    requires
        a.len() > 0,
        0 <= k < a.len(),
    ensures
        linked_statically_at(a, k, msvc_output) == linked_statically_at(a.drop_last(), k, msvc_output),
{
    let b = a.drop_last();
    assert forall|l: int| 0 <= l < k implies b[l] == a[l] by {}
    if linked_statically_at(a, k, msvc_output) {
        if msvc_output && forall|l: int|
            0 <= l < k && !is_linker_input(#[trigger] a[l]) ==> a[l] != bdynamic() {
            assert forall|l: int|
                0 <= l < k && !is_linker_input(#[trigger] b[l]) implies b[l] != bdynamic() by {
                assert(b[l] == a[l]);
            }
        } else {
            let j = choose|j: int|
                0 <= j < k && !is_linker_input(#[trigger] a[j]) && a[j] == bstatic() && forall|
                    l: int,
                | j < l < k && !is_linker_input(#[trigger] a[l]) ==> a[l] != bdynamic();
            assert(b[j] == a[j]);
            assert forall|l: int|
                j < l < k && !is_linker_input(#[trigger] b[l]) implies b[l] != bdynamic() by {
                assert(b[l] == a[l]);
            }
        }
    }
    if linked_statically_at(b, k, msvc_output) {
        if msvc_output && forall|l: int|
            0 <= l < k && !is_linker_input(#[trigger] b[l]) ==> b[l] != bdynamic() {
            assert forall|l: int|
                0 <= l < k && !is_linker_input(#[trigger] a[l]) implies a[l] != bdynamic() by {
                assert(b[l] == a[l]);
            }
        } else {
            let j = choose|j: int|
                0 <= j < k && !is_linker_input(#[trigger] b[j]) && b[j] == bstatic() && forall|
                    l: int,
                | j < l < k && !is_linker_input(#[trigger] b[l]) ==> b[l] != bdynamic();
            assert(b[j] == a[j]);
            assert forall|l: int|
                j < l < k && !is_linker_input(#[trigger] a[l]) implies a[l] != bdynamic() by {
                assert(b[l] == a[l]);
            }
        }
    }
}

proof fn lemma_static_step(a: Seq<Seq<u8>>, k: int, msvc_output: bool)
    requires
        0 <= k < a.len(),
    ensures
        is_linker_input(a[k]) ==> linked_statically_at(a, k + 1, msvc_output)
            == linked_statically_at(a, k, msvc_output),
        !is_linker_input(a[k]) ==> linked_statically_at(a, k + 1, msvc_output)
            == static_mode_after(linked_statically_at(a, k, msvc_output), a[k]),
{
    assert(bstatic() != bdynamic()) by {
        assert(bstatic()[6] != bdynamic()[6]);
    }
    let now = linked_statically_at(a, k, msvc_output);
    let next = linked_statically_at(a, k + 1, msvc_output);
    if next {
        if msvc_output && forall|l: int|
            0 <= l < k + 1 && !is_linker_input(#[trigger] a[l]) ==> a[l] != bdynamic() {
            assert(!is_linker_input(a[k]) ==> a[k] != bdynamic());
        } else {
            let j = choose|j: int|
                0 <= j < k + 1 && !is_linker_input(#[trigger] a[j]) && a[j] == bstatic() && forall|
                    l: int,
                | j < l < k + 1 && !is_linker_input(#[trigger] a[l]) ==> a[l] != bdynamic();
            if j < k {
                assert(!is_linker_input(a[k]) ==> a[k] != bdynamic());
            }
        }
    }
    if is_linker_input(a[k]) {
        if now {
            if msvc_output && forall|l: int|
                0 <= l < k && !is_linker_input(#[trigger] a[l]) ==> a[l] != bdynamic() {
                assert forall|l: int|
                    0 <= l < k + 1 && !is_linker_input(#[trigger] a[l]) implies a[l] != bdynamic() by {}
            } else {
                let j = choose|j: int|
                    0 <= j < k && !is_linker_input(#[trigger] a[j]) && a[j] == bstatic() && forall|
                        l: int,
                    | j < l < k && !is_linker_input(#[trigger] a[l]) ==> a[l] != bdynamic();
                assert forall|l: int|
                    j < l < k + 1 && !is_linker_input(#[trigger] a[l]) implies a[l] != bdynamic() by {}
            }
        }
    } else if a[k] == bdynamic() {
    } else if a[k] == bstatic() {
        assert forall|l: int|
            k < l < k + 1 && !is_linker_input(#[trigger] a[l]) implies a[l] != bdynamic() by {}
        assert(next);
    } else if now {
        if msvc_output && forall|l: int|
            0 <= l < k && !is_linker_input(#[trigger] a[l]) ==> a[l] != bdynamic() {
            assert forall|l: int|
                0 <= l < k + 1 && !is_linker_input(#[trigger] a[l]) implies a[l] != bdynamic() by {}
        } else {
            let j = choose|j: int|
                0 <= j < k && !is_linker_input(#[trigger] a[j]) && a[j] == bstatic() && forall|
                    l: int,
                | j < l < k && !is_linker_input(#[trigger] a[l]) ==> a[l] != bdynamic();
            assert forall|l: int|
                j < l < k + 1 && !is_linker_input(#[trigger] a[l]) implies a[l] != bdynamic() by {}
        }
    }
}

proof fn lemma_non_inputs_step(a: Seq<Seq<u8>>)
    requires
        a.len() > 0,
    ensures
        non_inputs(a) == (if is_linker_input(a.last()) {
            non_inputs(a.drop_last())
        } else {
            non_inputs(a.drop_last()).push(a.last())
        }),
{
    reveal(Seq::filter);
}

/// What the left-to-right scan finds, said without the scan.
proof fn lemma_input_scan_meaning(a: Seq<Seq<u8>>, msvc_output: bool)
    ensures
        input_scan(a, msvc_output).0 == non_inputs(a),
        input_scan(a, msvc_output).3 == linked_statically_at(a, a.len() as int, msvc_output),
        forall|k: int|
            #[trigger] first_input_at(a, k) ==> input_scan(a, msvc_output).1 == Some(
                non_inputs(a.subrange(0, k)).len() as int,
            ),
        (forall|l: int| 0 <= l < a.len() ==> !is_linker_input(#[trigger] a[l])) ==> input_scan(
            a,
            msvc_output,
        ).1 is None,
        forall|k: int|
            #[trigger] first_static_input_at(a, k, msvc_output) ==> input_scan(a, msvc_output).2
                == Some(non_inputs(a.subrange(0, k)).len() as int),
        no_static_input(a, msvc_output) ==> input_scan(a, msvc_output).2 is None,
    decreases a.len(),
{
    if a.len() == 0 {
        reveal(Seq::filter);
    } else {
        let b = a.drop_last();
        let n = b.len() as int;
        lemma_input_scan_meaning(b, msvc_output);
        lemma_non_inputs_step(a);
        lemma_static_step(a, n, msvc_output);
        lemma_static_prefix(a, n, msvc_output);
        assert(a.subrange(0, n) =~= b);
        assert forall|l: int| 0 <= l < n implies b[l] == a[l] by {}
        assert forall|k: int| 0 <= k < n implies linked_statically_at(a, k, msvc_output)
            == linked_statically_at(b, k, msvc_output) by {
            lemma_static_prefix(a, k, msvc_output);
        }
        assert forall|k: int| 0 <= k < n implies a.subrange(0, k) =~= b.subrange(0, k) by {}
        assert forall|k: int| #[trigger] first_input_at(a, k) implies input_scan(
            a,
            msvc_output,
        ).1 == Some(non_inputs(a.subrange(0, k)).len() as int) by {
            if k < n {
                assert(first_input_at(b, k));
            } else {
                assert forall|l: int| 0 <= l < n implies !is_linker_input(#[trigger] b[l]) by {
                    assert(!is_linker_input(a[l]));
                }
            }
        }
        assert forall|k: int| #[trigger] first_static_input_at(a, k, msvc_output) implies input_scan(
            a,
            msvc_output,
        ).2 == Some(non_inputs(a.subrange(0, k)).len() as int) by {
            if k < n {
                assert(first_static_input_at(b, k, msvc_output));
            } else {
                assert forall|l: int| 0 <= l < n implies !(is_linker_input(#[trigger] b[l])
                    && linked_statically_at(b, l, msvc_output)) by {
                    assert(!(is_linker_input(a[l]) && linked_statically_at(a, l, msvc_output)));
                }
                assert(no_static_input(b, msvc_output));
            }
        }
        if forall|l: int| 0 <= l < a.len() ==> !is_linker_input(#[trigger] a[l]) {
            assert forall|l: int| 0 <= l < n implies !is_linker_input(#[trigger] b[l]) by {
                assert(!is_linker_input(a[l]));
            }
            assert(!is_linker_input(a[n]));
        }
        if no_static_input(a, msvc_output) {
            assert forall|l: int| 0 <= l < n implies !(is_linker_input(#[trigger] b[l])
                && linked_statically_at(b, l, msvc_output)) by {
                assert(!(is_linker_input(a[l]) && linked_statically_at(a, l, msvc_output)));
            }
            assert(!(is_linker_input(a[n]) && linked_statically_at(a, n, msvc_output)));
        }
    }
}

/// Where the archive goes when a recorded command is replayed: in place of
/// the first linker input that is linked statically, or, when no input is,
/// of the first input. An input after `-Wl,-Bdynamic`, with no
/// `-Wl,-Bstatic` between, is not linked statically. The other arguments
/// (those left once the outputs are removed) keep their order around it.
pub proof fn archive_placement_law(arguments: Seq<Seq<u8>>, archive: Seq<u8>, msvc_output: bool, k: int)
    requires
        first_static_input_at(removed_outputs(arguments, msvc_output), k, msvc_output) || (
        first_input_at(removed_outputs(arguments, msvc_output), k) && no_static_input(
            removed_outputs(arguments, msvc_output),
            msvc_output,
        )),
    ensures
        ({
            let removed = removed_outputs(arguments, msvc_output);
            filtered_arguments(arguments, archive, msvc_output) == Some(
                non_inputs(removed.subrange(0, k)) + seq![archive] + non_inputs(
                    removed.subrange(k, removed.len() as int),
                ),
            )
        }),
{
    let removed = removed_outputs(arguments, msvc_output);
    lemma_input_scan_meaning(removed, msvc_output);
    let front = removed.subrange(0, k);
    let back = removed.subrange(k, removed.len() as int);
    assert(front + back =~= removed);
    Seq::filter_distributes_over_add(front, back, |x: Seq<u8>| !is_linker_input(x));
    assert(non_inputs(removed) == non_inputs(front) + non_inputs(back));
    if first_static_input_at(removed, k, msvc_output) {
        assert(input_scan(removed, msvc_output).2 == Some(non_inputs(front).len() as int));
    } else {
        if input_scan(removed, msvc_output).2 is Some {
            assert(!no_static_input(removed, msvc_output));
        }
        assert(input_scan(removed, msvc_output).1 == Some(non_inputs(front).len() as int));
    }
    assert(archive_position(removed, msvc_output) == Some(non_inputs(front).len() as int));
    assert((non_inputs(front) + non_inputs(back)).insert(non_inputs(front).len() as int, archive)
        =~= non_inputs(front) + seq![archive] + non_inputs(back));
}

} // verus!
