//! The byte strings that the linker-argument logic looks for.
use vstd::prelude::*;

verus! {

/// `/OUT:`
pub open spec fn out_flag() -> Seq<u8> {
    seq![47u8, 79, 85, 84, 58]
}

pub fn out_flag_bytes() -> (r: &'static [u8])
    ensures
        r@ == out_flag(),
{
    let r: &'static [u8] = &[47u8, 79, 85, 84, 58];
    r
}

/// `/PDB:`
pub open spec fn pdb_flag() -> Seq<u8> {
    seq![47u8, 80, 68, 66, 58]
}

pub fn pdb_flag_bytes() -> (r: &'static [u8])
    ensures
        r@ == pdb_flag(),
{
    let r: &'static [u8] = &[47u8, 80, 68, 66, 58];
    r
}

/// `/IMPLIB:`
pub open spec fn implib_flag() -> Seq<u8> {
    seq![47u8, 73, 77, 80, 76, 73, 66, 58]
}

pub fn implib_flag_bytes() -> (r: &'static [u8])
    ensures
        r@ == implib_flag(),
{
    let r: &'static [u8] = &[47u8, 73, 77, 80, 76, 73, 66, 58];
    r
}

/// `/ILK:`
pub open spec fn ilk_flag() -> Seq<u8> {
    seq![47u8, 73, 76, 75, 58]
}

pub fn ilk_flag_bytes() -> (r: &'static [u8])
    ensures
        r@ == ilk_flag(),
{
    let r: &'static [u8] = &[47u8, 73, 76, 75, 58];
    r
}

/// `/DEF:`
pub open spec fn def_flag() -> Seq<u8> {
    seq![47u8, 68, 69, 70, 58]
}

pub fn def_flag_bytes() -> (r: &'static [u8])
    ensures
        r@ == def_flag(),
{
    let r: &'static [u8] = &[47u8, 68, 69, 70, 58];
    r
}

/// `/NATVIS:`
pub open spec fn natvis_flag() -> Seq<u8> {
    seq![47u8, 78, 65, 84, 86, 73, 83, 58]
}

pub fn natvis_flag_bytes() -> (r: &'static [u8])
    ensures
        r@ == natvis_flag(),
{
    let r: &'static [u8] = &[47u8, 78, 65, 84, 86, 73, 83, 58];
    r
}

/// `/FORCE:MULTIPLE`
pub open spec fn force_multiple() -> Seq<u8> {
    seq![47u8, 70, 79, 82, 67, 69, 58, 77, 85, 76, 84, 73, 80, 76, 69]
}

pub fn force_multiple_bytes() -> (r: &'static [u8])
    ensures
        r@ == force_multiple(),
{
    let r: &'static [u8] = &[47u8, 70, 79, 82, 67, 69, 58, 77, 85, 76, 84, 73, 80, 76, 69];
    r
}

/// `-Wl,--allow-multiple-definition`
pub open spec fn wl_allow_multiple() -> Seq<u8> {
    seq![45u8, 87, 108, 44, 45, 45, 97, 108, 108, 111, 119, 45, 109, 117, 108, 116, 105, 112, 108, 101, 45, 100, 101, 102, 105, 110, 105, 116, 105, 111, 110]
}

pub fn wl_allow_multiple_bytes() -> (r: &'static [u8])
    ensures
        r@ == wl_allow_multiple(),
{
    let r: &'static [u8] = &[45u8, 87, 108, 44, 45, 45, 97, 108, 108, 111, 119, 45, 109, 117, 108, 116, 105, 112, 108, 101, 45, 100, 101, 102, 105, 110, 105, 116, 105, 111, 110];
    r
}

/// `--allow-multiple-definition`
pub open spec fn allow_multiple() -> Seq<u8> {
    seq![45u8, 45, 97, 108, 108, 111, 119, 45, 109, 117, 108, 116, 105, 112, 108, 101, 45, 100, 101, 102, 105, 110, 105, 116, 105, 111, 110]
}

pub fn allow_multiple_bytes() -> (r: &'static [u8])
    ensures
        r@ == allow_multiple(),
{
    let r: &'static [u8] = &[45u8, 45, 97, 108, 108, 111, 119, 45, 109, 117, 108, 116, 105, 112, 108, 101, 45, 100, 101, 102, 105, 110, 105, 116, 105, 111, 110];
    r
}

/// `-Wl,`
pub open spec fn wl_prefix() -> Seq<u8> {
    seq![45u8, 87, 108, 44]
}

pub fn wl_prefix_bytes() -> (r: &'static [u8])
    ensures
        r@ == wl_prefix(),
{
    let r: &'static [u8] = &[45u8, 87, 108, 44];
    r
}

/// `cc`
pub open spec fn cc_suffix() -> Seq<u8> {
    seq![99u8, 99]
}

pub fn cc_suffix_bytes() -> (r: &'static [u8])
    ensures
        r@ == cc_suffix(),
{
    let r: &'static [u8] = &[99u8, 99];
    r
}

/// `gcc`
pub open spec fn gcc() -> Seq<u8> {
    seq![103u8, 99, 99]
}

pub fn gcc_bytes() -> (r: &'static [u8])
    ensures
        r@ == gcc(),
{
    let r: &'static [u8] = &[103u8, 99, 99];
    r
}

/// `clang`
pub open spec fn clang() -> Seq<u8> {
    seq![99u8, 108, 97, 110, 103]
}

pub fn clang_bytes() -> (r: &'static [u8])
    ensures
        r@ == clang(),
{
    let r: &'static [u8] = &[99u8, 108, 97, 110, 103];
    r
}

/// `-Wl,-Bstatic`
pub open spec fn bstatic() -> Seq<u8> {
    seq![45u8, 87, 108, 44, 45, 66, 115, 116, 97, 116, 105, 99]
}

pub fn bstatic_bytes() -> (r: &'static [u8])
    ensures
        r@ == bstatic(),
{
    let r: &'static [u8] = &[45u8, 87, 108, 44, 45, 66, 115, 116, 97, 116, 105, 99];
    r
}

/// `-Wl,-Bdynamic`
pub open spec fn bdynamic() -> Seq<u8> {
    seq![45u8, 87, 108, 44, 45, 66, 100, 121, 110, 97, 109, 105, 99]
}

pub fn bdynamic_bytes() -> (r: &'static [u8])
    ensures
        r@ == bdynamic(),
{
    let r: &'static [u8] = &[45u8, 87, 108, 44, 45, 66, 100, 121, 110, 97, 109, 105, 99];
    r
}

/// `o`
pub open spec fn ext_o() -> Seq<u8> {
    seq![111u8]
}

pub fn ext_o_bytes() -> (r: &'static [u8])
    ensures
        r@ == ext_o(),
{
    let r: &'static [u8] = &[111u8];
    r
}

/// `obj`
pub open spec fn ext_obj() -> Seq<u8> {
    seq![111u8, 98, 106]
}

pub fn ext_obj_bytes() -> (r: &'static [u8])
    ensures
        r@ == ext_obj(),
{
    let r: &'static [u8] = &[111u8, 98, 106];
    r
}

/// `rlib`
pub open spec fn ext_rlib() -> Seq<u8> {
    seq![114u8, 108, 105, 98]
}

pub fn ext_rlib_bytes() -> (r: &'static [u8])
    ensures
        r@ == ext_rlib(),
{
    let r: &'static [u8] = &[114u8, 108, 105, 98];
    r
}

/// `lib`
pub open spec fn ext_lib() -> Seq<u8> {
    seq![108u8, 105, 98]
}

pub fn ext_lib_bytes() -> (r: &'static [u8])
    ensures
        r@ == ext_lib(),
{
    let r: &'static [u8] = &[108u8, 105, 98];
    r
}

/// `a`
pub open spec fn ext_a() -> Seq<u8> {
    seq![97u8]
}

pub fn ext_a_bytes() -> (r: &'static [u8])
    ensures
        r@ == ext_a(),
{
    let r: &'static [u8] = &[97u8];
    r
}

/// `telekio`
pub open spec fn ext_telekio() -> Seq<u8> {
    seq![116u8, 101, 108, 101, 107, 105, 111]
}

pub fn ext_telekio_bytes() -> (r: &'static [u8])
    ensures
        r@ == ext_telekio(),
{
    let r: &'static [u8] = &[116u8, 101, 108, 101, 107, 105, 111];
    r
}

/// `-flavor`
pub open spec fn flavor() -> Seq<u8> {
    seq![45u8, 102, 108, 97, 118, 111, 114]
}

pub fn flavor_bytes() -> (r: &'static [u8])
    ensures
        r@ == flavor(),
{
    let r: &'static [u8] = &[45u8, 102, 108, 97, 118, 111, 114];
    r
}

/// `-Xlinker`
pub open spec fn xlinker() -> Seq<u8> {
    seq![45u8, 88, 108, 105, 110, 107, 101, 114]
}

pub fn xlinker_bytes() -> (r: &'static [u8])
    ensures
        r@ == xlinker(),
{
    let r: &'static [u8] = &[45u8, 88, 108, 105, 110, 107, 101, 114];
    r
}

/// `-o`
pub open spec fn output_short() -> Seq<u8> {
    seq![45u8, 111]
}

pub fn output_short_bytes() -> (r: &'static [u8])
    ensures
        r@ == output_short(),
{
    let r: &'static [u8] = &[45u8, 111];
    r
}

/// `--out-implib`
pub open spec fn out_implib() -> Seq<u8> {
    seq![45u8, 45, 111, 117, 116, 45, 105, 109, 112, 108, 105, 98]
}

pub fn out_implib_bytes() -> (r: &'static [u8])
    ensures
        r@ == out_implib(),
{
    let r: &'static [u8] = &[45u8, 45, 111, 117, 116, 45, 105, 109, 112, 108, 105, 98];
    r
}

/// `-exported_symbols_list`
pub open spec fn exported_symbols_list() -> Seq<u8> {
    seq![45u8, 101, 120, 112, 111, 114, 116, 101, 100, 95, 115, 121, 109, 98, 111, 108, 115, 95, 108, 105, 115, 116]
}

pub fn exported_symbols_list_bytes() -> (r: &'static [u8])
    ensures
        r@ == exported_symbols_list(),
{
    let r: &'static [u8] = &[45u8, 101, 120, 112, 111, 114, 116, 101, 100, 95, 115, 121, 109, 98, 111, 108, 115, 95, 108, 105, 115, 116];
    r
}

/// `--dynamic-list`
pub open spec fn dynamic_list() -> Seq<u8> {
    seq![45u8, 45, 100, 121, 110, 97, 109, 105, 99, 45, 108, 105, 115, 116]
}

pub fn dynamic_list_bytes() -> (r: &'static [u8])
    ensures
        r@ == dynamic_list(),
{
    let r: &'static [u8] = &[45u8, 45, 100, 121, 110, 97, 109, 105, 99, 45, 108, 105, 115, 116];
    r
}

/// `-M`
pub open spec fn map_short() -> Seq<u8> {
    seq![45u8, 77]
}

pub fn map_short_bytes() -> (r: &'static [u8])
    ensures
        r@ == map_short(),
{
    let r: &'static [u8] = &[45u8, 77];
    r
}

/// `-Map`
pub open spec fn map_long() -> Seq<u8> {
    seq![45u8, 77, 97, 112]
}

pub fn map_long_bytes() -> (r: &'static [u8])
    ensures
        r@ == map_long(),
{
    let r: &'static [u8] = &[45u8, 77, 97, 112];
    r
}

/// `--output=`
pub open spec fn output_eq() -> Seq<u8> {
    seq![45u8, 45, 111, 117, 116, 112, 117, 116, 61]
}

pub fn output_eq_bytes() -> (r: &'static [u8])
    ensures
        r@ == output_eq(),
{
    let r: &'static [u8] = &[45u8, 45, 111, 117, 116, 112, 117, 116, 61];
    r
}

/// `--out-implib=`
pub open spec fn out_implib_eq() -> Seq<u8> {
    seq![45u8, 45, 111, 117, 116, 45, 105, 109, 112, 108, 105, 98, 61]
}

pub fn out_implib_eq_bytes() -> (r: &'static [u8])
    ensures
        r@ == out_implib_eq(),
{
    let r: &'static [u8] = &[45u8, 45, 111, 117, 116, 45, 105, 109, 112, 108, 105, 98, 61];
    r
}

/// `-Map=`
pub open spec fn map_eq() -> Seq<u8> {
    seq![45u8, 77, 97, 112, 61]
}

pub fn map_eq_bytes() -> (r: &'static [u8])
    ensures
        r@ == map_eq(),
{
    let r: &'static [u8] = &[45u8, 77, 97, 112, 61];
    r
}

/// `--version-script=`
pub open spec fn version_script_eq() -> Seq<u8> {
    seq![45u8, 45, 118, 101, 114, 115, 105, 111, 110, 45, 115, 99, 114, 105, 112, 116, 61]
}

pub fn version_script_eq_bytes() -> (r: &'static [u8])
    ensures
        r@ == version_script_eq(),
{
    let r: &'static [u8] = &[45u8, 45, 118, 101, 114, 115, 105, 111, 110, 45, 115, 99, 114, 105, 112, 116, 61];
    r
}

/// `--dynamic-list=`
pub open spec fn dynamic_list_eq() -> Seq<u8> {
    seq![45u8, 45, 100, 121, 110, 97, 109, 105, 99, 45, 108, 105, 115, 116, 61]
}

pub fn dynamic_list_eq_bytes() -> (r: &'static [u8])
    ensures
        r@ == dynamic_list_eq(),
{
    let r: &'static [u8] = &[45u8, 45, 100, 121, 110, 97, 109, 105, 99, 45, 108, 105, 115, 116, 61];
    r
}

/// `rustc`
pub open spec fn rustc() -> Seq<u8> {
    seq![114u8, 117, 115, 116, 99]
}

pub fn rustc_bytes() -> (r: &'static [u8])
    ensures
        r@ == rustc(),
{
    let r: &'static [u8] = &[114u8, 117, 115, 116, 99];
    r
}

/// `etc`
pub open spec fn etc() -> Seq<u8> {
    seq![101u8, 116, 99]
}

pub fn etc_bytes() -> (r: &'static [u8])
    ensures
        r@ == etc(),
{
    let r: &'static [u8] = &[101u8, 116, 99];
    r
}

/// `rustlib`
pub open spec fn rustlib() -> Seq<u8> {
    seq![114u8, 117, 115, 116, 108, 105, 98]
}

pub fn rustlib_bytes() -> (r: &'static [u8])
    ensures
        r@ == rustlib(),
{
    let r: &'static [u8] = &[114u8, 117, 115, 116, 108, 105, 98];
    r
}

/// `.telekio`
pub open spec fn telekio_suffix() -> Seq<u8> {
    seq![46u8, 116, 101, 108, 101, 107, 105, 111]
}

pub fn telekio_suffix_bytes() -> (r: &'static [u8])
    ensures
        r@ == telekio_suffix(),
{
    let r: &'static [u8] = &[46u8, 116, 101, 108, 101, 107, 105, 111];
    r
}

} // verus!
