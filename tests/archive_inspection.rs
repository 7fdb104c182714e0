use mod_manager::archive::{
    entry_name, extract_zip_archive, find_nativepc_folder, find_nativepc_marker,
    is_directory_entry, normalize_nativepc_folder, preview_zip_archive, DirEntryInfo,
};
use mod_manager::error::ErrorKind;
use std::io::Write;

fn build_zip(entries: &[(&str, Option<&[u8]>)]) -> Vec<u8> {
    let mut writer = zip::ZipWriter::new(std::io::Cursor::new(Vec::new()));
    let options = zip::write::SimpleFileOptions::default()
        .compression_method(zip::CompressionMethod::Deflated);
    for (name, data) in entries {
        match data {
            Some(bytes) => {
                writer.start_file(*name, options).unwrap();
                writer.write_all(bytes).unwrap();
            }
            None => writer.add_directory(*name, options).unwrap(),
        }
    }
    writer.finish().unwrap().into_inner()
}

fn dir(name: &str, is_directory: bool) -> DirEntryInfo {
    DirEntryInfo { name: name.to_string(), is_directory }
}

#[test]
fn preview_finds_nativepc_in_original_case() {
    let bytes = build_zip(&[("Data/NativePC/textures/a.dds", Some(b"dds"))]);
    let preview = preview_zip_archive(&bytes).unwrap();
    assert!(preview.has_native_pc);
    assert_eq!(preview.native_pc_path, "Data/NativePC");
    assert_eq!(preview.files.len(), 1);
    assert_eq!(preview.files[0].path, "Data/NativePC/textures/a.dds");
    assert_eq!(preview.files[0].name, "a.dds");
    assert!(!preview.files[0].is_directory);
    assert!(preview.files[0].children.is_none());
}

#[test]
fn preview_lists_entries_in_archive_order() {
    let bytes = build_zip(&[
        ("readme.txt", Some(b"hi")),
        ("nativepc/", None),
        ("nativepc/common/", None),
        ("nativepc/common/x.bin", Some(b"\x00\x01")),
    ]);
    let preview = preview_zip_archive(&bytes).unwrap();
    let paths: Vec<&str> = preview.files.iter().map(|n| n.path.as_str()).collect();
    assert_eq!(paths, vec!["readme.txt", "nativepc/", "nativepc/common/", "nativepc/common/x.bin"]);
    let names: Vec<&str> = preview.files.iter().map(|n| n.name.as_str()).collect();
    assert_eq!(names, vec!["readme.txt", "nativepc", "common", "x.bin"]);
    let dirs: Vec<bool> = preview.files.iter().map(|n| n.is_directory).collect();
    assert_eq!(dirs, vec![false, true, true, false]);
    assert!(preview.has_native_pc);
    assert_eq!(preview.native_pc_path, "nativepc");
}

#[test]
fn preview_without_nativepc_reports_empty_path() {
    let bytes = build_zip(&[("mod/readme.txt", Some(b"x")), ("mynativepc.txt", Some(b"y"))]);
    let preview = preview_zip_archive(&bytes).unwrap();
    assert!(!preview.has_native_pc);
    assert_eq!(preview.native_pc_path, "");
    assert_eq!(preview.files.len(), 2);
}

#[test]
fn preview_of_empty_archive() {
    let bytes = build_zip(&[]);
    let preview = preview_zip_archive(&bytes).unwrap();
    assert!(!preview.has_native_pc);
    assert!(preview.files.is_empty());
}

#[test]
fn preview_rejects_unreadable_bytes() {
    let err = preview_zip_archive(&b"not a zip archive at all".to_vec()).unwrap_err();
    assert_eq!(err.kind(), ErrorKind::Corrupt);
    assert!(preview_zip_archive(&Vec::new()).is_err());
}

#[test]
fn marker_needs_a_following_separator() {
    assert_eq!(find_nativepc_marker("Data/NativePC/textures/a.dds"), Some(5));
    assert_eq!(find_nativepc_marker("x/NATIVEPC\\a"), Some(2));
    assert_eq!(find_nativepc_marker("nativepc"), None);
    assert_eq!(find_nativepc_marker("nativepcx/nativepc/a"), Some(10));
    assert_eq!(find_nativepc_marker("natiVEpc/"), Some(0));
    assert_eq!(find_nativepc_marker(""), None);
}

#[test]
fn entry_names_are_final_segments() {
    assert_eq!(entry_name("a/b/c.txt"), "c.txt");
    assert_eq!(entry_name("a/b/"), "b");
    assert_eq!(entry_name("top"), "top");
    assert_eq!(entry_name("a/.."), "a/..");
    assert_eq!(entry_name("/"), "/");
    assert_eq!(entry_name(""), "");
    assert!(is_directory_entry("a/"));
    assert!(is_directory_entry("a\\"));
    assert!(!is_directory_entry("a"));
}

#[test]
fn extraction_decodes_every_entry() {
    let bytes = build_zip(&[
        ("NativePC/", None),
        ("NativePC/pl/a.dds", Some(b"first file")),
        ("notes.txt", Some(b"second")),
    ]);
    let entries = extract_zip_archive(&bytes).unwrap();
    assert_eq!(entries.len(), 3);
    assert_eq!(entries[0].path, "NativePC/");
    assert!(entries[0].is_directory);
    assert!(entries[0].data.is_empty());
    assert_eq!(entries[1].path, "NativePC/pl/a.dds");
    assert!(!entries[1].is_directory);
    assert_eq!(entries[1].data, b"first file".to_vec());
    assert_eq!(entries[2].data, b"second".to_vec());
}

#[test]
fn extraction_rejects_unreadable_bytes() {
    let err = extract_zip_archive(&vec![0x50, 0x4b, 0x03, 0x04, 0, 0]).unwrap_err();
    assert_eq!(err.kind(), ErrorKind::Corrupt);
}

#[test]
fn normalization_renames_uppercase_nativepc() {
    let children = vec![dir("readme.txt", false), dir("NativePC", true)];
    assert_eq!(find_nativepc_folder(&children), Some(1));
    assert_eq!(normalize_nativepc_folder(&children), Some(1));
}

#[test]
fn normalization_of_extracted_top_level_folder() {
    let bytes = build_zip(&[("NativePC/", None), ("NativePC/a.dds", Some(b"a"))]);
    let entries = extract_zip_archive(&bytes).unwrap();
    let top: Vec<DirEntryInfo> = entries
        .iter()
        .filter(|e| e.is_directory && !e.path.trim_end_matches('/').contains('/'))
        .map(|e| dir(e.path.trim_end_matches('/'), true))
        .collect();
    let index = normalize_nativepc_folder(&top).unwrap();
    assert_eq!(top[index].name, "NativePC");
}

#[test]
fn normalization_leaves_lowercase_and_files_alone() {
    assert_eq!(normalize_nativepc_folder(&vec![dir("nativepc", true)]), None);
    assert_eq!(find_nativepc_folder(&vec![dir("nativepc", true)]), Some(0));
    assert_eq!(normalize_nativepc_folder(&vec![dir("NATIVEPC", false)]), None);
    assert_eq!(find_nativepc_folder(&vec![dir("NATIVEPC", false)]), None);
    assert_eq!(normalize_nativepc_folder(&vec![]), None);
    assert_eq!(find_nativepc_folder(&vec![dir("nativepcs", true)]), None);
}
