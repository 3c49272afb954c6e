use std::io::Write;

use noraneko_winupdater::archive::entry_name_is_safe;
use noraneko_winupdater::archive::extract_archive;
use noraneko_winupdater::errors::UpdateError;

fn build_zip(entries: &[(&str, &[u8])]) -> Vec<u8> {
    let mut cursor = std::io::Cursor::new(Vec::new());
    let mut writer = zip::ZipWriter::new(&mut cursor);
    let options = zip::write::SimpleFileOptions::default();
    for (name, data) in entries {
        writer.start_file(*name, options).expect("start file");
        writer.write_all(data).expect("write entry");
    }
    writer.finish().expect("finish zip");
    cursor.into_inner()
}

#[test]
fn test_unzip_invalid() {
    let bytes: Vec<u8> = b"not a zip file".to_vec();
    assert!(extract_archive(&bytes).is_err());
    assert!(matches!(extract_archive(&bytes), Err(UpdateError::BadArchive)));
}

#[test]
fn test_extract_valid_archive() {
    let bytes = build_zip(&[("dir/file.txt", b"Hello, World!"), ("top.txt", b"x")]);
    let entries = extract_archive(&bytes).expect("extract");
    assert_eq!(entries.len(), 2);
    assert_eq!(entries[0].name, "dir/file.txt");
    assert_eq!(entries[0].data, b"Hello, World!".to_vec());
    assert!(!entries[0].is_dir);
    assert_eq!(entries[1].name, "top.txt");
}

#[test]
fn test_extract_rejects_parent_traversal() {
    let bytes = build_zip(&[("../../evil.txt", b"evil")]);
    let r = extract_archive(&bytes);
    assert!(matches!(r, Err(UpdateError::PathTraversal { .. })));
    if let Err(UpdateError::PathTraversal { name }) = r {
        assert_eq!(name, "../../evil.txt");
    }
}

#[test]
fn test_extract_rejects_traversal_before_any_entry_is_handed_out() {
    // the safe entry before the evil one must not be handed out either
    let bytes = build_zip(&[("ok.txt", b"fine"), ("a/../../evil.txt", b"evil")]);
    assert!(extract_archive(&bytes).is_err());
}

#[test]
fn test_entry_name_safety_rules() {
    assert!(entry_name_is_safe("good.txt"));
    assert!(entry_name_is_safe("a/b/c.txt"));
    assert!(entry_name_is_safe("a..b/c"));
    assert!(entry_name_is_safe("...\\dots"));
    assert!(entry_name_is_safe(""));
    assert!(!entry_name_is_safe("../../evil.txt"));
    assert!(!entry_name_is_safe("..\\evil.txt"));
    assert!(!entry_name_is_safe("a/../b.txt"));
    assert!(!entry_name_is_safe("a/.."));
    assert!(!entry_name_is_safe("/absolute.txt"));
    assert!(!entry_name_is_safe("\\absolute.txt"));
    assert!(!entry_name_is_safe("C:\\windows\\evil.txt"));
}

#[test]
fn test_content_root_single_top_directory() {
    let bytes = build_zip(&[
        ("noraneko-1.1.0/app.exe", b"x"),
        ("noraneko-1.1.0/data/res.txt", b"y"),
    ]);
    let entries = extract_archive(&bytes).expect("extract");
    assert_eq!(
        noraneko_winupdater::archive::content_root(&entries),
        Some(String::from("noraneko-1.1.0"))
    );
}

#[test]
fn test_content_root_flat_archive() {
    let bytes = build_zip(&[("app.exe", b"x"), ("res.txt", b"y")]);
    let entries = extract_archive(&bytes).expect("extract");
    assert_eq!(noraneko_winupdater::archive::content_root(&entries), None);
}

#[test]
fn test_content_root_file_beside_directory() {
    let bytes = build_zip(&[("noraneko/app.exe", b"x"), ("readme.txt", b"y")]);
    let entries = extract_archive(&bytes).expect("extract");
    assert_eq!(noraneko_winupdater::archive::content_root(&entries), None);
}

#[test]
fn test_content_root_two_directories() {
    let bytes = build_zip(&[("one/a.txt", b"x"), ("two/b.txt", b"y")]);
    let entries = extract_archive(&bytes).expect("extract");
    assert_eq!(noraneko_winupdater::archive::content_root(&entries), None);
}

#[test]
fn test_content_root_empty_archive() {
    let bytes = build_zip(&[]);
    let entries = extract_archive(&bytes).expect("extract");
    assert_eq!(entries.len(), 0);
    assert_eq!(noraneko_winupdater::archive::content_root(&entries), None);
}
