use fvrs_core::compare::{compare_directories, compare_files, ComparisonType, Difference, TreeEntry};
use fvrs_core::error::FsError;
use fvrs_core::hashing::{
    calculate_directory_hash, calculate_hash, digest_bytes, verify_hash, HashAlgorithm,
};
use fvrs_core::search::{find_files, find_files_by_extension, search_files, SearchCandidate, SearchOptions};

fn candidate(path: &str, size: u64, is_dir: bool, depth: usize, content: Option<&str>) -> SearchCandidate {
    SearchCandidate {
        path: path.to_string(),
        size,
        is_dir,
        created: 0,
        modified: 0,
        depth,
        content: content.map(|c| c.to_string()),
    }
}

#[test]
fn hash_sha256_of_hello() {
    let data: Vec<u8> = b"hello".to_vec();
    let r = calculate_hash(&data, HashAlgorithm::SHA256);
    assert_eq!(
        r.hash,
        "2cf24dba5fb0a30e26e83b2ac5b9e29e1b161e5c1fa7425e73043362938b9824"
    );
    assert_eq!(r.size, 5);
    assert_eq!(r.algorithm, HashAlgorithm::SHA256);
}

#[test]
fn hash_known_vectors_of_abc() {
    let data: Vec<u8> = b"abc".to_vec();
    assert_eq!(
        calculate_hash(&data, HashAlgorithm::MD5).hash,
        "900150983cd24fb0d6963f7d28e17f72"
    );
    assert_eq!(
        calculate_hash(&data, HashAlgorithm::SHA1).hash,
        "a9993e364706816aba3e25717850c26c9cd0d89d"
    );
    assert_eq!(
        calculate_hash(&data, HashAlgorithm::SHA256).hash,
        "ba7816bf8f01cfea414140de5dae2223b00361a396177a9cb410ff61f20015ad"
    );
    assert_eq!(
        calculate_hash(&data, HashAlgorithm::SHA512).hash,
        "ddaf35a193617abacc417349ae20413112e6fa4e89a97ea20a9eeee64b55d39a2192992a274fc1a836ba3c23a3feebbd454d4423643ce80e2a9ac94fa54ca49f"
    );
    assert_eq!(
        calculate_hash(&data, HashAlgorithm::BLAKE3).hash,
        "6437b3ac38465133ffb63b75273a8db548c558465d79db03fd359c6cd5bd9d85"
    );
    assert_eq!(
        calculate_hash(&data, HashAlgorithm::RIPEMD160).hash,
        "8eb208f7e05d987a9b044a8e98c6b087f15a0bfc"
    );
}

#[test]
fn hash_deterministic_on_same_bytes() {
    let data: Vec<u8> = b"determinism".to_vec();
    let a = calculate_hash(&data, HashAlgorithm::BLAKE3);
    let b = calculate_hash(&data, HashAlgorithm::BLAKE3);
    assert_eq!(a.hash, b.hash);
}

#[test]
fn digest_lengths_match_algorithms() {
    let data: Vec<u8> = b"xyz".to_vec();
    assert_eq!(digest_bytes(&data, HashAlgorithm::MD5).len(), 16);
    assert_eq!(digest_bytes(&data, HashAlgorithm::SHA1).len(), 20);
    assert_eq!(digest_bytes(&data, HashAlgorithm::SHA256).len(), 32);
    assert_eq!(digest_bytes(&data, HashAlgorithm::SHA512).len(), 64);
    assert_eq!(digest_bytes(&data, HashAlgorithm::BLAKE3).len(), 32);
    assert_eq!(digest_bytes(&data, HashAlgorithm::RIPEMD160).len(), 20);
}

#[test]
fn verify_accepts_own_digest() {
    let data: Vec<u8> = b"round trip".to_vec();
    let r = calculate_hash(&data, HashAlgorithm::SHA1);
    assert!(verify_hash(&data, r.hash.as_str(), HashAlgorithm::SHA1));
}

#[test]
fn verify_is_case_sensitive_and_exact() {
    let data: Vec<u8> = b"hello".to_vec();
    let r = calculate_hash(&data, HashAlgorithm::SHA256);
    let upper = r.hash.to_uppercase();
    assert!(!verify_hash(&data, upper.as_str(), HashAlgorithm::SHA256));
    assert!(!verify_hash(&data, "deadbeef", HashAlgorithm::SHA256));
}

#[test]
fn directory_hash_is_hash_of_concatenation() {
    let files: Vec<Vec<u8>> = vec![b"ab".to_vec(), b"cd".to_vec()];
    let r = calculate_directory_hash(&files, HashAlgorithm::SHA256);
    let whole: Vec<u8> = b"abcd".to_vec();
    let expected = calculate_hash(&whole, HashAlgorithm::SHA256);
    assert_eq!(r.hash, expected.hash);
    assert_eq!(r.size, 4);
}

#[test]
fn compare_binary_identical_to_itself() {
    let data: Vec<u8> = b"same bytes".to_vec();
    let r = compare_files(&data, &data, ComparisonType::Binary).unwrap();
    assert!(r.identical);
    assert_eq!(r.total_differences, 0);
    assert!(r.differences.is_empty());
}

#[test]
fn compare_binary_reports_differing_offset() {
    let left: Vec<u8> = b"abc".to_vec();
    let right: Vec<u8> = b"axc".to_vec();
    let r = compare_files(&left, &right, ComparisonType::Binary).unwrap();
    assert!(!r.identical);
    assert_eq!(r.total_differences, 1);
    assert_eq!(
        r.differences[0],
        Difference::BinaryDiff { offset: 1, left: b'b', right: b'x' }
    );
}

#[test]
fn compare_binary_records_size_mismatch() {
    let left: Vec<u8> = b"ab".to_vec();
    let right: Vec<u8> = b"abc".to_vec();
    let r = compare_files(&left, &right, ComparisonType::Binary).unwrap();
    assert!(!r.identical);
    assert_eq!(r.total_differences, 1);
    assert_eq!(r.differences[0], Difference::SizeDiff { left_size: 2, right_size: 3 });
}

#[test]
fn compare_text_hello_world() {
    let left: Vec<u8> = b"hello".to_vec();
    let right: Vec<u8> = b"world".to_vec();
    let r = compare_files(&left, &right, ComparisonType::Text).unwrap();
    assert!(!r.identical);
    assert_eq!(r.total_differences, 1);
    assert_eq!(
        r.differences[0],
        Difference::TextDiff {
            line: 1,
            left: "hello".to_string(),
            right: "world".to_string()
        }
    );
}

#[test]
fn compare_text_ignore_case_flipped() {
    let left: Vec<u8> = b"Hello\nWORLD\n".to_vec();
    let right: Vec<u8> = b"hELLO\nworld\n".to_vec();
    let r = compare_files(&left, &right, ComparisonType::TextIgnoreCase).unwrap();
    assert!(r.identical);
    assert_eq!(r.total_differences, 0);
}

#[test]
fn compare_text_ignore_whitespace_still_counts_size() {
    let left: Vec<u8> = b"  a\n".to_vec();
    let right: Vec<u8> = b"a\n".to_vec();
    let r = compare_files(&left, &right, ComparisonType::TextIgnoreWhitespace).unwrap();
    assert!(!r.identical);
    assert_eq!(r.total_differences, 1);
    assert_eq!(r.differences[0], Difference::SizeDiff { left_size: 4, right_size: 2 });
}

#[test]
fn compare_text_uneven_line_counts() {
    let left: Vec<u8> = b"a\nb\n".to_vec();
    let right: Vec<u8> = b"a\n".to_vec();
    let r = compare_files(&left, &right, ComparisonType::Text).unwrap();
    assert!(!r.identical);
    // one size difference and one text difference at line 2 against the empty side
    assert_eq!(r.total_differences, 2);
    assert_eq!(
        r.differences[1],
        Difference::TextDiff { line: 2, left: "b\n".to_string(), right: String::new() }
    );
}

#[test]
fn compare_text_rejects_invalid_utf8() {
    let left: Vec<u8> = vec![0xff, 0xfe];
    let right: Vec<u8> = b"ok".to_vec();
    let r = compare_files(&left, &right, ComparisonType::Text);
    assert!(matches!(r, Err(FsError::Io(_))));
}

#[test]
fn compare_directories_identical_copy() {
    let left = vec![
        TreeEntry { rel_path: "a.txt".to_string(), content: Some(b"hello".to_vec()) },
        TreeEntry { rel_path: "sub".to_string(), content: None },
        TreeEntry { rel_path: "sub/b.txt".to_string(), content: Some(b"world".to_vec()) },
    ];
    let right = vec![
        TreeEntry { rel_path: "a.txt".to_string(), content: Some(b"hello".to_vec()) },
        TreeEntry { rel_path: "sub".to_string(), content: None },
        TreeEntry { rel_path: "sub/b.txt".to_string(), content: Some(b"world".to_vec()) },
    ];
    let r = compare_directories(&left, &right, ComparisonType::Binary).unwrap();
    assert!(r.identical);
    assert_eq!(r.total_differences, 0);
}

#[test]
fn compare_directories_reports_missing_and_content() {
    let left = vec![
        TreeEntry { rel_path: "a.txt".to_string(), content: Some(b"hello".to_vec()) },
        TreeEntry { rel_path: "only_left".to_string(), content: Some(b"x".to_vec()) },
    ];
    let right = vec![
        TreeEntry { rel_path: "a.txt".to_string(), content: Some(b"hellx".to_vec()) },
        TreeEntry { rel_path: "only_right".to_string(), content: Some(b"y".to_vec()) },
    ];
    let r = compare_directories(&left, &right, ComparisonType::Binary).unwrap();
    assert!(!r.identical);
    // one byte difference in a.txt, one missing on each side
    assert_eq!(r.total_differences, 3);
    assert_eq!(
        r.differences[0],
        Difference::BinaryDiff { offset: 4, left: b'o', right: b'x' }
    );
    assert_eq!(
        r.differences[1],
        Difference::TypeDiff { left_type: "file".to_string(), right_type: "missing".to_string() }
    );
    assert_eq!(
        r.differences[2],
        Difference::TypeDiff { left_type: "missing".to_string(), right_type: "file".to_string() }
    );
}

#[test]
fn search_respects_result_cap() {
    let cands = vec![
        candidate("root/m1.log", 1, false, 1, None),
        candidate("root/m2.log", 1, false, 1, None),
        candidate("root/m3.log", 1, false, 1, None),
        candidate("root/m4.log", 1, false, 1, None),
        candidate("root/m5.log", 1, false, 1, None),
    ];
    let options = SearchOptions {
        pattern: "log".to_string(),
        search_contents: false,
        case_sensitive: true,
        max_depth: None,
        extensions: None,
        max_results: Some(2),
    };
    let r = search_files(&options, &cands).unwrap();
    assert_eq!(r.len(), 2);
    assert_eq!(r[0].name, "m1.log");
    assert_eq!(r[1].name, "m2.log");
}

#[test]
fn search_rejects_invalid_pattern() {
    let cands = vec![candidate("root/a.txt", 1, false, 1, None)];
    let options = SearchOptions {
        pattern: "(".to_string(),
        search_contents: false,
        case_sensitive: true,
        max_depth: None,
        extensions: None,
        max_results: None,
    };
    let r = search_files(&options, &cands);
    assert!(matches!(r, Err(FsError::InvalidRegex(_))));
}

#[test]
fn search_depth_cap_excludes_deeper_entries() {
    let cands = vec![
        candidate("root/a.txt", 1, false, 1, None),
        candidate("root/sub/deep/a.txt", 1, false, 3, None),
    ];
    let options = SearchOptions {
        pattern: "a".to_string(),
        search_contents: false,
        case_sensitive: true,
        max_depth: Some(2),
        extensions: None,
        max_results: None,
    };
    let r = search_files(&options, &cands).unwrap();
    assert_eq!(r.len(), 1);
    assert_eq!(r[0].path, "root/a.txt");
}

#[test]
fn search_contents_matches_per_line() {
    let cands = vec![
        candidate("root/notes.md", 12, false, 1, Some("hello\nworld\n")),
        candidate("root/other.md", 3, false, 1, Some("abc")),
    ];
    let options = SearchOptions {
        pattern: "wor".to_string(),
        search_contents: true,
        case_sensitive: true,
        max_depth: None,
        extensions: None,
        max_results: None,
    };
    let r = search_files(&options, &cands).unwrap();
    assert_eq!(r.len(), 1);
    assert_eq!(r[0].name, "notes.md");
}

#[test]
fn search_case_insensitive_pattern() {
    let cands = vec![candidate("root/README", 1, false, 1, None)];
    let options = SearchOptions {
        pattern: "readme".to_string(),
        search_contents: false,
        case_sensitive: false,
        max_depth: None,
        extensions: None,
        max_results: None,
    };
    let r = search_files(&options, &cands).unwrap();
    assert_eq!(r.len(), 1);
}

#[test]
fn find_by_extension_matches_case_insensitively() {
    let cands = vec![
        candidate("dir/a.txt", 5, false, 1, None),
        candidate("dir/b.txt", 5, false, 1, None),
        candidate("dir/c.log", 5, false, 1, None),
    ];
    let r = find_files_by_extension("TXT", &cands).unwrap();
    assert_eq!(r.len(), 2);
    assert_eq!(r[0].name, "a.txt");
    assert_eq!(r[1].name, "b.txt");
}

#[test]
fn find_files_matches_names_anywhere() {
    let cands = vec![
        candidate("dir/report.pdf", 5, false, 1, None),
        candidate("dir/summary.txt", 5, false, 2, None),
    ];
    let r = find_files("port", &cands).unwrap();
    assert_eq!(r.len(), 1);
    assert_eq!(r[0].name, "report.pdf");
}

#[test]
fn search_entries_carry_metadata() {
    let cands = vec![SearchCandidate {
        path: "dir/data.bin".to_string(),
        size: 42,
        is_dir: false,
        created: 1000,
        modified: 2000,
        depth: 1,
        content: None,
    }];
    let options = SearchOptions {
        pattern: "data".to_string(),
        search_contents: false,
        case_sensitive: true,
        max_depth: None,
        extensions: None,
        max_results: None,
    };
    let r = search_files(&options, &cands).unwrap();
    assert_eq!(r.len(), 1);
    assert_eq!(r[0].size, 42);
    assert_eq!(r[0].created, 1000);
    assert_eq!(r[0].modified, 2000);
    assert_eq!(r[0].extension.as_deref(), Some("bin"));
    assert!(!r[0].is_dir);
}
