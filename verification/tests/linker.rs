use telekio::linker::{
    RecordError, archive, decode_record_bytes, filter_arguments, filter_driver_argument, linker_input,
    output_argument, output_pair, read_record, remove_outputs, rustc_natvis, temporary_linker_output,
    temporary_path,
};

fn record_of(arguments: &[&[u8]]) -> Vec<u8> {
    let mut bytes = Vec::new();
    for argument in arguments {
        bytes.extend_from_slice(&(argument.len() as u64).to_le_bytes());
        bytes.extend_from_slice(argument);
    }
    bytes
}

fn owned(arguments: &[&str]) -> Vec<Vec<u8>> {
    arguments.iter().map(|a| a.as_bytes().to_vec()).collect()
}

#[test]
fn record_reads_back_its_arguments() {
    let record = record_of(&[b"cc", b"-o", b"out", b""]);
    assert_eq!(decode_record_bytes(&record).unwrap(), owned(&["cc", "-o", "out", ""]));
    assert_eq!(decode_record_bytes(&[]).unwrap(), Vec::<Vec<u8>>::new());
}

#[test]
fn truncated_records() {
    assert_eq!(decode_record_bytes(&[1, 0, 0]), Err(RecordError::TruncatedLength));
    let mut record = record_of(&[b"cc"]);
    record.pop();
    assert_eq!(decode_record_bytes(&record), Err(RecordError::TruncatedArgument));
    assert!(matches!(read_record(&[], b"a.telekio".to_vec(), false), Err(RecordError::EmptyCommand)));
}

#[test]
fn linker_inputs_need_a_directory() {
    assert!(linker_input(b"/tmp/x/foo.o"));
    assert!(linker_input(b"deps/libfoo.rlib"));
    assert!(!linker_input(b"foo.o"));
    assert!(!linker_input(b"/tmp/x/foo.so"));
    assert!(linker_input(b"./libbar.a"));
}

#[test]
fn temporary_outputs() {
    assert!(temporary_path(b"/tmp/rustcXYZ/list"));
    assert!(temporary_path(b"/tmp/RustC1/list"));
    assert!(!temporary_path(b"/tmp/other/list"));
    assert!(temporary_linker_output(b"-Map=/tmp/rustc9/map", b"-Map="));
    assert!(!temporary_linker_output(b"-Map=/tmp/x/map", b"-Map="));
    assert!(rustc_natvis(b"/toolchain/lib/rustlib/etc/intrinsic.natvis"));
    assert!(!rustc_natvis(b"/toolchain/lib/etc/intrinsic.natvis"));
}

#[test]
fn output_arguments() {
    assert!(output_pair(b"-o", Some(b"anything")));
    assert!(!output_pair(b"-o", None));
    assert!(output_pair(b"--dynamic-list", Some(b"/tmp/rustcA/list")));
    assert!(!output_pair(b"--dynamic-list", Some(b"/tmp/keep/list")));
    assert!(output_argument(b"/out:lib.dll", true));
    assert!(!output_argument(b"/out:lib.dll", false));
    assert!(output_argument(b"--output=x", false));
}

#[test]
fn driver_arguments_lose_outputs() {
    assert_eq!(
        filter_driver_argument(b"-Wl,-o,out,--as-needed"),
        Some(b"-Wl,--as-needed".to_vec())
    );
    assert_eq!(filter_driver_argument(b"-Wl,-o,out"), None);
    assert_eq!(filter_driver_argument(b"-lfoo"), None);
}

#[test]
fn outputs_are_removed() {
    let arguments = owned(&["-flavor", "gnu", "-o", "out", "-Xlinker", "--output=x", "keep", "-Wl,-o,a,-z"]);
    assert_eq!(remove_outputs(&arguments, false), owned(&["keep", "-Wl,-z"]));
}

#[test]
fn archive_replaces_inputs() {
    let arguments = owned(&["-m64", "/t/a.o", "-Wl,-Bstatic", "/t/libx.rlib", "-lc"]);
    let filtered = filter_arguments(&arguments, b"/r/e.telekio".to_vec(), false).unwrap();
    assert_eq!(filtered, owned(&["-m64", "-Wl,-Bstatic", "/r/e.telekio", "-lc"]));
    let none = owned(&["-lc"]);
    assert_eq!(filter_arguments(&none, b"x".to_vec(), false), Err(RecordError::NoFileInputs));
}

#[test]
fn read_record_picks_duplicate_flag() {
    let record = record_of(&[b"/usr/bin/cc", b"/t/a.o", b"-o", b"out"]);
    let read = read_record(&record, b"/r/e.telekio".to_vec(), false).unwrap();
    assert_eq!(read.arguments, owned(&["/r/e.telekio"]));
    assert_eq!(read.spec.duplicate, owned(&["-Wl,--allow-multiple-definition"]));
    let replayed = read.spec.replay(&owned(&["x"]));
    assert_eq!(replayed, owned(&["x", "-Wl,--allow-multiple-definition"]));
    let apple = read_record(&record, b"/r/e.telekio".to_vec(), true).unwrap();
    assert!(apple.spec.duplicate.is_empty());
    let msvc = record_of(&[b"link.exe", b"/OUT:x.dll", b"C:/t/a.obj"]);
    let read = read_record(&msvc, b"e.telekio".to_vec(), true).unwrap();
    assert_eq!(read.spec.duplicate, owned(&["/FORCE:MULTIPLE"]));
    let ld = record_of(&[b"/usr/bin/ld", b"/t/a.o"]);
    let read = read_record(&ld, b"e.telekio".to_vec(), false).unwrap();
    assert_eq!(read.spec.duplicate, owned(&["--allow-multiple-definition"]));
}

#[test]
fn archive_path() {
    assert_eq!(archive(b"/records", b"plugin"), b"/records/plugin.telekio".to_vec());
}
