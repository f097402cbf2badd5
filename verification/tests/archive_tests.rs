use cloudapi_installr::archive::{
    is_directory_entry, is_safe_entry_name, plan_entries, plan_entry, plan_extraction, ArchiveEntry,
    ExtractOp,
};
use cloudapi_installr::error::ExtensionError;
use std::io::Write;

fn archive(entries: &[(&str, &[u8])]) -> Vec<u8> {
    let mut writer = zip::ZipWriter::new(std::io::Cursor::new(Vec::new()));
    let options = zip::write::FileOptions::default();
    for (name, contents) in entries {
        if name.ends_with('/') {
            writer.add_directory(*name, options).unwrap();
        } else {
            writer.start_file(*name, options).unwrap();
            writer.write_all(contents).unwrap();
        }
    }
    writer.finish().unwrap().into_inner()
}

fn entry(name: &str, contents: &[u8]) -> ArchiveEntry {
    ArchiveEntry { name: name.to_string(), contents: contents.to_vec() }
}

#[test]
fn relative_names_stay_inside() {
    assert!(is_safe_entry_name("install.ps1"));
    assert!(is_safe_entry_name("bin/tool.exe"));
    assert!(is_safe_entry_name("bin/"));
    assert!(is_safe_entry_name("a/./b"));
    assert!(is_safe_entry_name("..."));
    assert!(is_safe_entry_name("a..b/c.."));
    assert!(is_safe_entry_name("..a"));
    assert!(is_safe_entry_name("a../b"));
    assert!(is_safe_entry_name(""));
}

#[test]
fn parent_components_are_refused() {
    assert!(!is_safe_entry_name(".."));
    assert!(!is_safe_entry_name("../evil"));
    assert!(!is_safe_entry_name("a/../b"));
    assert!(!is_safe_entry_name("a/.."));
    assert!(!is_safe_entry_name("a\\..\\b"));
    assert!(!is_safe_entry_name("..\\evil"));
    assert!(!is_safe_entry_name("a/b/../../../c"));
}

#[test]
fn absolute_names_are_refused() {
    assert!(!is_safe_entry_name("/etc/shadow"));
    assert!(!is_safe_entry_name("\\windows\\system32"));
    assert!(!is_safe_entry_name("C:\\windows"));
    assert!(!is_safe_entry_name("c:relative"));
    assert!(!is_safe_entry_name("/"));
}

#[test]
fn directory_names_end_with_a_slash() {
    assert!(is_directory_entry("bin/"));
    assert!(is_directory_entry("a/b/"));
    assert!(!is_directory_entry("bin"));
    assert!(!is_directory_entry(""));
    assert!(!is_directory_entry("bin\\"));
}

#[test]
fn entry_becomes_a_file_or_a_directory_below_the_target() {
    assert_eq!(
        plan_entry("/t", entry("bin/", b"")),
        ExtractOp::Directory { path: "/t/bin/".to_string() }
    );
    assert_eq!(
        plan_entry("/t", entry("bin/tool", b"xyz")),
        ExtractOp::File { path: "/t/bin/tool".to_string(), contents: b"xyz".to_vec() }
    );
}

#[test]
fn plan_has_one_step_per_entry_in_order() {
    let ops = plan_entries("/t", vec![entry("a/", b""), entry("a/x", b"1"), entry("y", b"2")]).unwrap();
    assert_eq!(
        ops,
        vec![
            ExtractOp::Directory { path: "/t/a/".to_string() },
            ExtractOp::File { path: "/t/a/x".to_string(), contents: b"1".to_vec() },
            ExtractOp::File { path: "/t/y".to_string(), contents: b"2".to_vec() },
        ]
    );
    assert_eq!(plan_entries("/t", Vec::new()), Ok(Vec::new()));
}

#[test]
fn plan_names_the_first_unsafe_entry() {
    let result = plan_entries(
        "/t",
        vec![entry("ok", b""), entry("../one", b""), entry("fine", b""), entry("/two", b"")],
    );
    assert_eq!(result, Err(ExtensionError::UnsafeEntryPath(1)));
    assert_eq!(plan_entries("/t", vec![entry("/abs", b"")]), Err(ExtensionError::UnsafeEntryPath(0)));
}

#[test]
fn archive_is_unpacked_entry_by_entry() {
    let bytes = archive(&[("bin/", b""), ("bin/tool", b"binary"), ("install.ps1", b"exit 0")]);
    let ops = plan_extraction("/root/extensions/acme-foo/v1.0.0", bytes).unwrap();
    assert_eq!(
        ops,
        vec![
            ExtractOp::Directory { path: "/root/extensions/acme-foo/v1.0.0/bin/".to_string() },
            ExtractOp::File {
                path: "/root/extensions/acme-foo/v1.0.0/bin/tool".to_string(),
                contents: b"binary".to_vec()
            },
            ExtractOp::File {
                path: "/root/extensions/acme-foo/v1.0.0/install.ps1".to_string(),
                contents: b"exit 0".to_vec()
            },
        ]
    );
}

#[test]
fn empty_archive_gives_an_empty_plan() {
    assert_eq!(plan_extraction("/t", archive(&[])), Ok(Vec::new()));
}

#[test]
fn archive_with_traversal_is_refused_as_a_whole() {
    let bytes = archive(&[("ok.txt", b"fine"), ("../../etc/passwd", b"evil")]);
    assert_eq!(plan_extraction("/t", bytes), Err(ExtensionError::UnsafeEntryPath(1)));
    let bytes = archive(&[("/abs", b"evil"), ("ok.txt", b"fine")]);
    assert_eq!(plan_extraction("/t", bytes), Err(ExtensionError::UnsafeEntryPath(0)));
}

#[test]
fn bytes_that_are_no_archive_are_corrupt() {
    assert_eq!(plan_extraction("/t", b"not a zip archive".to_vec()), Err(ExtensionError::ArchiveCorrupt));
    assert_eq!(plan_extraction("/t", Vec::new()), Err(ExtensionError::ArchiveCorrupt));
}

#[test]
fn entry_with_damaged_content_is_corrupt() {
    let payload = b"0123456789abcdef0123456789abcdef0123456789abcdef";
    let mut writer = zip::ZipWriter::new(std::io::Cursor::new(Vec::new()));
    let options =
        zip::write::FileOptions::default().compression_method(zip::CompressionMethod::Stored);
    writer.start_file("data.bin", options).unwrap();
    writer.write_all(payload).unwrap();
    let mut bytes = writer.finish().unwrap().into_inner();
    let at = bytes.windows(payload.len()).position(|w| w == payload).unwrap();
    bytes[at] ^= 0xff;
    assert_eq!(plan_extraction("/t", bytes), Err(ExtensionError::ArchiveCorrupt));
}

#[test]
fn entry_with_an_encryption_header_but_no_encryption_flag_is_corrupt() {
    let header = [0xfe, 0xca, 0x07, 0x00, 0x02, 0x00, 0x41, 0x45, 0x03, 0x00, 0x00];
    let options =
        zip::write::FileOptions::default().compression_method(zip::CompressionMethod::Stored);
    let mut writer = zip::ZipWriter::new(std::io::Cursor::new(Vec::new()));
    writer.start_file_with_extra_data("data.bin", options).unwrap();
    writer.write_all(&header).unwrap();
    writer.end_extra_data().unwrap();
    writer.write_all(b"payload").unwrap();
    let mut bytes = writer.finish().unwrap().into_inner();
    let mut patched = 0;
    for at in 0..bytes.len() - header.len() {
        if bytes[at..at + header.len()] == header {
            bytes[at] = 0x01;
            bytes[at + 1] = 0x99;
            patched += 1;
        }
    }
    assert_eq!(patched, 2);
    let mut opened = zip::ZipArchive::new(std::io::Cursor::new(bytes.clone())).unwrap();
    assert_eq!(opened.len(), 1);
    assert!(matches!(opened.by_index_decrypt(0, b""), Ok(Err(_))));
    assert_eq!(plan_extraction("/t", bytes), Err(ExtensionError::ArchiveCorrupt));
}
