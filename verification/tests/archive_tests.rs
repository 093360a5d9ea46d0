use std::io::{Cursor, Write};
use usaco_cli::archive::{case_file_names, detect_layout, official_test_cases, ArchiveError};
use zip::write::{SimpleFileOptions, ZipWriter};

fn build_zip(entries: &[(&str, &str)]) -> Vec<u8> {
    let mut writer = ZipWriter::new(Cursor::new(Vec::new()));
    let options = SimpleFileOptions::default();
    for (name, contents) in entries {
        writer.start_file(*name, options).unwrap();
        writer.write_all(contents.as_bytes()).unwrap();
    }
    writer.finish().unwrap().into_inner()
}

#[test]
fn new_convention_archive_yields_cases_in_order() {
    let bytes = build_zip(&[
        ("1.in", "1 2\n"),
        ("1.out", "3\n"),
        ("2.in", "5 5\n"),
        ("2.out", "10\n"),
    ]);
    let cases = official_test_cases(bytes).unwrap();
    assert_eq!(cases.len(), 2);
    assert_eq!(cases[0].input, "1 2\n");
    assert_eq!(cases[0].output, "3\n");
    assert_eq!(cases[1].input, "5 5\n");
    assert_eq!(cases[1].output, "10\n");
}

#[test]
fn old_convention_archive_yields_cases() {
    let bytes = build_zip(&[("I.1", "in one"), ("O.1", "out one")]);
    let cases = official_test_cases(bytes).unwrap();
    assert_eq!(cases.len(), 1);
    assert_eq!(cases[0].input, "in one");
    assert_eq!(cases[0].output, "out one");
}

#[test]
fn incomplete_pairs_are_skipped() {
    let bytes = build_zip(&[("1.in", "a"), ("1.out", "b"), ("3.in", "lonely")]);
    let cases = official_test_cases(bytes).unwrap();
    // case 3 has no output file and case 2 does not exist at all
    assert_eq!(cases.len(), 1);
    assert_eq!(cases[0].input, "a");
}

#[test]
fn not_an_archive_is_an_error() {
    let result = official_test_cases(vec![1, 2, 3, 4]);
    assert_eq!(result.unwrap_err(), ArchiveError::BadArchive);
}

#[test]
fn name_without_dot_is_an_error() {
    let bytes = build_zip(&[("README", "hi")]);
    let result = official_test_cases(bytes);
    assert_eq!(result.unwrap_err(), ArchiveError::BadEntryName);
}

#[test]
fn detect_layout_reads_both_conventions() {
    let new_names: Vec<String> =
        ["1.in", "1.out", "2.in", "2.out"].iter().map(|s| s.to_string()).collect();
    let layout = detect_layout(&new_names).unwrap();
    assert!(!layout.old_format);
    assert_eq!(layout.num_cases, 2);

    let old_names: Vec<String> = ["I.1", "O.1"].iter().map(|s| s.to_string()).collect();
    let layout = detect_layout(&old_names).unwrap();
    assert!(layout.old_format);
    assert_eq!(layout.num_cases, 1);
}

#[test]
fn detect_layout_ignores_unnumbered_names() {
    let names: Vec<String> =
        ["readme.txt", "7.in", "7.out"].iter().map(|s| s.to_string()).collect();
    let layout = detect_layout(&names).unwrap();
    assert!(!layout.old_format);
    assert_eq!(layout.num_cases, 7);
}

#[test]
fn case_file_names_follow_the_convention() {
    assert_eq!(case_file_names(false, 3), ("3.in".to_string(), "3.out".to_string()));
    assert_eq!(case_file_names(true, 12), ("I.12".to_string(), "O.12".to_string()));
}
