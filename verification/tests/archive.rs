use std::io::Cursor;
use std::io::Read;
use std::io::Write;

use s3_transfer::TransferError;
use s3_transfer::archive::PlanAction;
use s3_transfer::archive::build_archive;
use s3_transfer::archive::extraction_plan;
use s3_transfer::entry::ArchiveEntry;
use s3_transfer::entry::entry_name_is_archivable;
use s3_transfer::entry::entry_name_is_safe;

fn file(name: &str, data: &[u8]) -> ArchiveEntry {
    ArchiveEntry { name: name.to_string(), data: Some(data.to_vec()) }
}

fn dir(name: &str) -> ArchiveEntry {
    ArchiveEntry { name: name.to_string(), data: None }
}

#[test]
fn round_trip_tree() {
    let entries = vec![
        file("a.txt", b"alpha"),
        dir("sub"),
        file("sub/b.bin", &[0u8, 159, 146, 150]),
        dir("sub/empty"),
        dir("other"),
        file("other/c", b""),
    ];
    let bytes = build_archive(&entries).expect("archive should build");
    let plan = extraction_plan(bytes).expect("own archive should extract");
    assert_eq!(plan.len(), entries.len());
    for (e, a) in entries.iter().zip(plan.iter()) {
        match (&e.data, a) {
            (Some(d), PlanAction::WriteFile { name, data }) => {
                assert_eq!(name, &e.name);
                assert_eq!(data, d);
            }
            (None, PlanAction::MakeDir { name }) => {
                assert_eq!(name, &format!("{}/", e.name));
            }
            _ => panic!("entry {} restored as the wrong kind", e.name),
        }
    }
}

#[test]
fn archive_readable_by_zip_crate() {
    let entries = vec![file("x/y.txt", b"payload"), dir("x/z")];
    let bytes = build_archive(&entries).expect("archive should build");
    let mut archive = zip::ZipArchive::new(Cursor::new(bytes)).expect("zip crate should read it");
    assert_eq!(archive.len(), 2);
    let mut f = archive.by_name("x/y.txt").expect("file entry present");
    let mut data = Vec::new();
    f.read_to_end(&mut data).unwrap();
    assert_eq!(data, b"payload");
    drop(f);
    assert!(archive.by_name("x/z/").is_ok());
}

#[test]
fn unsafe_entry_skip() {
    let opts = zip::write::SimpleFileOptions::default();
    let mut w = zip::ZipWriter::new(Cursor::new(Vec::new()));
    w.start_file("good.txt", opts).unwrap();
    w.write_all(b"keep me").unwrap();
    w.start_file("../escape.txt", opts).unwrap();
    w.write_all(b"evil").unwrap();
    w.start_file("/abs.txt", opts).unwrap();
    w.write_all(b"evil too").unwrap();
    w.start_file("..\\back.txt", opts).unwrap();
    w.write_all(b"evil three").unwrap();
    w.start_file("C:/drive.txt", opts).unwrap();
    w.write_all(b"evil four").unwrap();
    w.add_directory("safe", opts).unwrap();
    let bytes = w.finish().unwrap().into_inner();

    let plan = extraction_plan(bytes).expect("safe entries still extract");
    assert_eq!(plan.len(), 2);
    match &plan[0] {
        PlanAction::WriteFile { name, data } => {
            assert_eq!(name, "good.txt");
            assert_eq!(data, b"keep me");
        }
        _ => panic!("first safe entry should be the file"),
    }
    match &plan[1] {
        PlanAction::MakeDir { name } => assert_eq!(name, "safe/"),
        _ => panic!("second safe entry should be the directory"),
    }
}

#[test]
fn duplicate_names_fail_to_build() {
    let entries = vec![file("same.txt", b"a"), file("same.txt", b"b")];
    let err = build_archive(&entries).expect_err("the writer rejects duplicate names");
    assert!(matches!(err, TransferError::ArchiveWrite));
}

#[test]
fn archivable_name_rules() {
    assert!(entry_name_is_archivable("a/b.txt"));
    assert!(!entry_name_is_archivable("sub/"));
    assert!(!entry_name_is_archivable("endsep\\"));
    assert!(!entry_name_is_archivable("../x"));
    assert!(entry_name_is_archivable(&"y".repeat(16_383)));
    assert!(!entry_name_is_archivable(&"y".repeat(16_384)));
}

#[test]
fn garbage_bytes_fail_to_extract() {
    let err = extraction_plan(vec![0u8, 1, 2, 3]).expect_err("not an archive");
    assert!(matches!(err, TransferError::ArchiveRead));
}

#[test]
fn entry_name_safety_rules() {
    assert!(entry_name_is_safe("a/b.txt"));
    assert!(entry_name_is_safe("sub/"));
    assert!(entry_name_is_safe("..a/b"));
    assert!(entry_name_is_safe("a..b"));
    assert!(entry_name_is_safe("a/b.."));
    assert!(entry_name_is_safe("a\\b"));
    assert!(entry_name_is_safe("a/b:c"));
    assert!(!entry_name_is_safe(""));
    assert!(!entry_name_is_safe("/abs"));
    assert!(!entry_name_is_safe("\\abs"));
    assert!(!entry_name_is_safe(".."));
    assert!(!entry_name_is_safe("../escape.txt"));
    assert!(!entry_name_is_safe("..\\escape.txt"));
    assert!(!entry_name_is_safe("a/../b"));
    assert!(!entry_name_is_safe("a/..\\b"));
    assert!(!entry_name_is_safe("a\\..\\b"));
    assert!(!entry_name_is_safe("a/.."));
    assert!(!entry_name_is_safe("a/..//b"));
    assert!(!entry_name_is_safe("C:/x"));
    assert!(!entry_name_is_safe("C:\\x"));
    assert!(!entry_name_is_safe("C:"));
    assert!(!entry_name_is_safe("nul\0name"));
}
