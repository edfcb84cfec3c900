use fvrs_core::archive::{ArchiveHandler, ArchiveType};
use fvrs_core::clipboard::{Clipboard, ClipboardOp};
use fvrs_core::dragdrop::{DragDrop, DragOp};
use fvrs_core::entry::FileEntry;
use fvrs_core::error::FsError;
use fvrs_core::fileinfo::{DiskSpaceInfo, FileInfoCollector, FileInfoDialog};
use fvrs_core::fileviewer::FileViewerUI;
use fvrs_core::fileops;
use fvrs_core::paths::{extension_of, file_name_of};
use fvrs_core::shortcuts::ShortcutHandler;
use fvrs_core::text::{lower_string, split_lines, u64_to_string};
use fvrs_core::util::{format_file_size, get_display_name};

#[test]
fn entry_derives_name_and_extension() {
    let e = FileEntry::new("dir/sub/report.tar.gz".to_string(), 10, false, 1, 2);
    assert_eq!(e.name, "report.tar.gz");
    assert_eq!(e.extension.as_deref(), Some("gz"));
    assert_eq!(e.size, 10);
}

#[test]
fn entry_directory_size_is_zero() {
    let e = FileEntry::new("dir/sub".to_string(), 4096, true, 0, 0);
    assert!(e.is_dir);
    assert_eq!(e.size, 0);
    assert_eq!(e.name, "sub");
    assert!(e.extension.is_none());
}

#[test]
fn path_helpers_handle_edge_cases() {
    assert_eq!(file_name_of("a/b/c.txt"), "c.txt");
    assert_eq!(file_name_of("plain"), "plain");
    assert_eq!(extension_of("a/b.tar"), Some("tar".to_string()));
    assert_eq!(extension_of("a/b"), None);
    assert_eq!(extension_of("a/.hidden"), None);
    assert_eq!(extension_of("a/ends."), Some(String::new()));
}

#[test]
fn error_messages_carry_prefixes() {
    assert_eq!(FsError::Io("x".to_string()).message(), "IO error: x");
    assert_eq!(FsError::InvalidPath("p".to_string()).message(), "Invalid path: p");
    assert_eq!(FsError::FsEvent("e".to_string()).message(), "File system event error: e");
    assert_eq!(FsError::NotSupported("n".to_string()).message(), "Operation not supported: n");
    assert_eq!(FsError::InvalidRegex("r".to_string()).message(), "Invalid regex pattern: r");
    assert_eq!(FsError::Search("s".to_string()).message(), "Search error: s");
    assert_eq!(FsError::Permission("q".to_string()).message(), "Permission error: q");
    assert_eq!(FsError::Hash("h".to_string()).message(), "Hash error: h");
    assert_eq!(FsError::Comparison("c".to_string()).message(), "Comparison error: c");
    assert_eq!(FsError::Monitoring("m".to_string()).message(), "Monitoring error: m");
    assert_eq!(FsError::Serialization("z".to_string()).message(), "Serialization error: z");
}

#[test]
fn archive_types_detected_from_extension() {
    assert_eq!(ArchiveHandler::detect_archive_type("a.zip"), ArchiveType::Zip);
    assert_eq!(ArchiveHandler::detect_archive_type("a.JAR"), ArchiveType::Zip);
    assert_eq!(ArchiveHandler::detect_archive_type("a.lzh"), ArchiveType::Lzh);
    assert_eq!(ArchiveHandler::detect_archive_type("a.tar"), ArchiveType::Tar);
    assert_eq!(ArchiveHandler::detect_archive_type("a.tgz"), ArchiveType::TarGz);
    assert_eq!(ArchiveHandler::detect_archive_type("a.tbz2"), ArchiveType::TarBz2);
    assert_eq!(ArchiveHandler::detect_archive_type("a.gz"), ArchiveType::Gz);
    assert_eq!(ArchiveHandler::detect_archive_type("a.tar.gz"), ArchiveType::Gz);
    assert_eq!(ArchiveHandler::detect_archive_type("a.tar.bz2"), ArchiveType::TarBz2);
    assert_eq!(ArchiveHandler::detect_archive_type("a.7z"), ArchiveType::SevenZ);
    assert_eq!(ArchiveHandler::detect_archive_type("a.rar"), ArchiveType::Rar);
    assert_eq!(ArchiveHandler::detect_archive_type("a.cab"), ArchiveType::Cab);
    assert_eq!(ArchiveHandler::detect_archive_type("a.txt"), ArchiveType::Unknown);
    assert!(ArchiveHandler::is_archive("a.zip"));
    assert!(!ArchiveHandler::is_archive("a.txt"));
}

#[test]
fn clipboard_records_and_clears_selection() {
    let mut c = Clipboard::new();
    assert!(c.get_items().is_none());
    c.set_items(vec!["a".to_string(), "b".to_string()], ClipboardOp::Copy);
    let (items, op) = c.get_items().unwrap();
    assert_eq!(items, vec!["a".to_string(), "b".to_string()]);
    assert_eq!(op, ClipboardOp::Copy);
    c.clear();
    assert!(c.get_items().is_none());
}

#[test]
fn drag_state_tracks_source_and_operation() {
    let mut d = DragDrop::new();
    assert!(!d.is_dragging());
    assert!(d.current_operation().is_none());
    d.start_drag("x.txt".to_string(), DragOp::Move);
    assert!(d.is_dragging());
    assert_eq!(d.current_operation(), Some(DragOp::Move));
    d.end_drag();
    assert!(!d.is_dragging());
}

#[test]
fn drag_operation_follows_modifier_keys() {
    assert_eq!(fileops::get_drag_op(true, false), fileops::DragOp::Copy);
    assert_eq!(fileops::get_drag_op(true, true), fileops::DragOp::Copy);
    assert_eq!(fileops::get_drag_op(false, true), fileops::DragOp::Move);
    assert_eq!(fileops::get_drag_op(false, false), fileops::DragOp::Move);
}

#[test]
fn format_size_scales_and_rounds() {
    assert_eq!(fileops::format_size(0), "0.0 B");
    assert_eq!(fileops::format_size(512), "512.0 B");
    assert_eq!(fileops::format_size(1024), "1.0 KB");
    assert_eq!(fileops::format_size(1536), "1.5 KB");
    assert_eq!(fileops::format_size(1048576), "1.0 MB");
    assert_eq!(fileops::format_size(5 * 1024 * 1024 * 1024), "5.0 GB");
}

#[test]
fn format_file_size_prints_bytes_whole() {
    assert_eq!(format_file_size(0), "0 B");
    assert_eq!(format_file_size(512), "512 B");
    assert_eq!(format_file_size(2048), "2.0 KB");
    assert_eq!(format_file_size(1536), "1.5 KB");
}

#[test]
fn display_name_falls_back_to_question_mark() {
    assert_eq!(get_display_name("a/b/c.txt"), "c.txt");
    assert_eq!(get_display_name("trailing/"), "?");
    assert_eq!(get_display_name(""), "?");
}

#[test]
fn decimal_rendering_matches() {
    assert_eq!(u64_to_string(0), "0");
    assert_eq!(u64_to_string(7), "7");
    assert_eq!(u64_to_string(1234567890), "1234567890");
}

#[test]
fn lowercase_folds_ascii_only() {
    assert_eq!(lower_string("MiXeD123"), "mixed123");
}

#[test]
fn split_lines_keeps_terminators() {
    let lines = split_lines("a\nbb\nc");
    assert_eq!(lines, vec!["a\n".to_string(), "bb\n".to_string(), "c".to_string()]);
    let empty = split_lines("");
    assert!(empty.is_empty());
}

#[test]
fn file_types_for_known_extensions() {
    assert_eq!(FileInfoCollector::determine_file_type("a.txt", false), "テキストファイル");
    assert_eq!(FileInfoCollector::determine_file_type("a", true), "フォルダー");
    assert_eq!(FileInfoCollector::determine_file_type("a.rs", false), "Rustソースファイル");
    assert_eq!(FileInfoCollector::determine_file_type("a.xyz", false), "XYZファイル");
    assert_eq!(FileInfoCollector::determine_file_type("noext", false), "ファイル");
}

#[test]
fn mime_types_for_known_extensions() {
    assert_eq!(FileInfoCollector::get_mime_type("a.txt"), "text/plain");
    assert_eq!(FileInfoCollector::get_mime_type("a.json"), "application/json");
    assert_eq!(FileInfoCollector::get_mime_type("a.unknown"), "application/octet-stream");
}

#[test]
fn pe_metadata_only_for_executables() {
    let (v, c, d, r) = FileInfoCollector::get_pe_metadata("tool.exe");
    assert_eq!(v.as_deref(), Some("1.0.0"));
    assert_eq!(c.as_deref(), Some("Unknown Company"));
    assert_eq!(d.as_deref(), Some("Windows Application"));
    assert!(r.is_some());
    let (v2, c2, d2, r2) = FileInfoCollector::get_pe_metadata("doc.txt");
    assert!(v2.is_none() && c2.is_none() && d2.is_none() && r2.is_none());
}

#[test]
fn associations_for_known_extensions() {
    let (program, command) = FileInfoCollector::get_file_associations("txt");
    assert_eq!(program.as_deref(), Some("メモ帳"));
    assert_eq!(command.as_deref(), Some("notepad.exe"));
    let (none_p, none_c) = FileInfoCollector::get_file_associations("");
    assert!(none_p.is_none() && none_c.is_none());
    let (unk_p, unk_c) = FileInfoCollector::get_file_associations("xyz");
    assert!(unk_p.is_none() && unk_c.is_none());
}

#[test]
fn disk_space_placeholder_is_consistent() {
    let info = FileInfoCollector::get_disk_space_info("any").unwrap();
    assert_eq!(
        info,
        DiskSpaceInfo {
            total_space: 1_000_000_000_000,
            free_space: 500_000_000_000,
            used_space: 500_000_000_000
        }
    );
    assert_eq!(info.total_space, info.free_space + info.used_space);
}

#[test]
fn shortcut_table_has_all_entries() {
    let table = ShortcutHandler::get_shortcut_description();
    assert_eq!(table.len(), 16);
    assert_eq!(table[0].0, "A-Z");
    assert_eq!(table[15].0, "S");
}

#[test]
fn text_files_recognized_by_extension_or_name() {
    assert!(FileViewerUI::is_text_file("src/main.rs"));
    assert!(FileViewerUI::is_text_file("notes.TXT"));
    assert!(!FileViewerUI::is_text_file("image.png"));
    assert!(FileViewerUI::is_text_file("README"));
    assert!(FileViewerUI::is_text_file("Makefile"));
    assert!(!FileViewerUI::is_text_file("randomfile"));
}

#[test]
fn hex_dump_of_two_bytes() {
    let data: Vec<u8> = b"AB".to_vec();
    let mut expected = String::from("バイナリファイル - サイズ: 2 バイト (1 KB)\n\n");
    expected.push_str("00000000  41 42 ");
    for pos in 2..16 {
        if pos == 8 {
            expected.push(' ');
        }
        expected.push_str("   ");
    }
    expected.push(' ');
    expected.push_str("AB");
    expected.push('\n');
    assert_eq!(FileViewerUI::format_as_hex(&data), expected);
}

#[test]
fn hex_dump_of_empty_contents_is_header_only() {
    let data: Vec<u8> = Vec::new();
    assert_eq!(
        FileViewerUI::format_as_hex(&data),
        "バイナリファイル - サイズ: 0 バイト (0 KB)\n\n"
    );
}

#[test]
fn hex_dump_marks_unprintable_bytes() {
    let data: Vec<u8> = vec![0x00, 0x41, 0x20, 0x7f];
    let dump = FileViewerUI::format_as_hex(&data);
    assert!(dump.contains("00 41 20 7F"));
    assert!(dump.ends_with(".A .\n"));
}

#[test]
fn icons_follow_extension_groups() {
    assert_eq!(FileInfoDialog::get_file_icon("PDF"), "📕");
    assert_eq!(FileInfoDialog::get_file_icon("jpg"), FileInfoDialog::get_file_icon("png"));
    assert_eq!(FileInfoDialog::get_file_icon("rs"), "💻");
    assert_eq!(FileInfoDialog::get_file_icon("weird"), "📄");
}
