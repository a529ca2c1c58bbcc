use goodgame::archive::{archive_entries, extract_entries, is_clean_rel_path, SaveEntry};
use goodgame::errors::GgError;

fn entry(path: &str, data: &[u8]) -> SaveEntry {
    SaveEntry {
        path: String::from(path),
        data: data.to_vec(),
    }
}

#[test]
fn archive_then_extract_reproduces_contents_and_paths() {
    let entries = vec![
        entry("slot1.sav", b"hello world"),
        entry("profiles/alice/slot2.sav", &[0u8, 1, 2, 3, 255, 254]),
        entry("empty.dat", b""),
    ];
    let bytes = archive_entries(&entries).unwrap();
    let back = extract_entries(&bytes).unwrap();
    assert_eq!(back.len(), entries.len());
    for (orig, restored) in entries.iter().zip(back.iter()) {
        assert_eq!(orig.path, restored.path);
        assert_eq!(orig.data, restored.data);
    }
}

#[test]
fn archive_compresses_repetitive_data() {
    let entries = vec![entry("big.sav", &vec![7u8; 100_000])];
    let bytes = archive_entries(&entries).unwrap();
    assert!(bytes.len() < 100_000);
    let back = extract_entries(&bytes).unwrap();
    assert_eq!(back[0].data.len(), 100_000);
}

#[test]
fn clean_entries_always_archive() {
    let entries = vec![entry("a/b/c.sav", b"data"), entry("d.sav", b"")];
    assert!(archive_entries(&entries).is_ok());
}

#[test]
fn archive_refuses_unclean_paths() {
    for bad in ["../evil", "/abs", "a//b", "a/./b", ".", "dir/", ""] {
        let err = archive_entries(&vec![entry(bad, b"x")]).unwrap_err();
        assert!(matches!(err, GgError::ArchiveError { .. }), "path {bad:?}");
    }
}

#[test]
fn extract_refuses_malformed_bytes() {
    let err = extract_entries(&vec![1u8, 2, 3, 4]).unwrap_err();
    assert!(matches!(err, GgError::ArchiveError { .. }));
}

#[test]
fn clean_path_check_accepts_normal_forms_only() {
    assert!(is_clean_rel_path("a"));
    assert!(is_clean_rel_path("a/b/c.txt"));
    assert!(is_clean_rel_path("..a/b..")); // dots inside names are fine
    assert!(!is_clean_rel_path(""));
    assert!(!is_clean_rel_path("/a"));
    assert!(!is_clean_rel_path("a/"));
    assert!(!is_clean_rel_path("a//b"));
    assert!(!is_clean_rel_path("."));
    assert!(!is_clean_rel_path(".."));
    assert!(!is_clean_rel_path("./a"));
    assert!(!is_clean_rel_path("../a"));
    assert!(!is_clean_rel_path("a/."));
    assert!(!is_clean_rel_path("a/.."));
    assert!(!is_clean_rel_path("a/./b"));
    assert!(!is_clean_rel_path("a/../b"));
    assert!(!is_clean_rel_path("a\u{0}b"));
}
