use repo_archive::hash::{
    is_hashed_extension, is_potentionally_relevant, is_sync_due, treatment, ContentKind,
    FileEntry, Treatment,
};

#[test]
fn a_file_entry_writes_the_hash_in_lowercase_hexadecimal() {
    let entry = FileEntry::new("model.bin", "/srv/model.bin", &[0x00, 0x0f, 0xa0, 0xff, 0x12], 42);
    assert_eq!(
        entry,
        FileEntry {
            filename: "model.bin".to_string(),
            path: "/srv/model.bin".to_string(),
            sha256: "000fa0ff12".to_string(),
            size: 42,
        }
    );
}

#[test]
fn the_hash_of_no_bytes_is_the_empty_text() {
    assert_eq!(FileEntry::new("f", "p", &[], 0).sha256, "");
}

#[test]
fn every_byte_becomes_two_digits() {
    let bytes: Vec<u8> = (0..=255).collect();
    let entry = FileEntry::new("f", "p", &bytes, 256);
    let expected: String = bytes.iter().map(|b| format!("{b:02x}")).collect();
    assert_eq!(entry.sha256, expected);
    assert_eq!(entry.sha256.len(), 512);
}

#[test]
fn the_hashed_extensions() {
    for extension in [
        "bin", "safetensors", "pt", "pth", "onnx", "h5", "hdf5", "ckpt", "pb", "zip", "7z", "tar",
        "gz", "xz", "bz2", "rar", "lz4", "gguf",
    ] {
        assert!(is_hashed_extension(extension), "{extension}");
    }
}

#[test]
fn other_extensions_are_not_hashed() {
    for extension in ["", "txt", "BIN", "Zip", "bin ", "p", "pt2", "safetensor", "json"] {
        assert!(!is_hashed_extension(extension), "{extension:?}");
    }
}

#[test]
fn content_of_a_harmless_kind_is_not_worth_a_look() {
    for kind in [
        ContentKind::Audio,
        ContentKind::Book,
        ContentKind::Doc,
        ContentKind::Font,
        ContentKind::Image,
        ContentKind::Text,
        ContentKind::Video,
    ] {
        assert!(!is_potentionally_relevant(Some(kind)), "{kind:?}");
    }
}

#[test]
fn content_of_another_kind_is_worth_a_look() {
    for kind in [ContentKind::App, ContentKind::Archive, ContentKind::Custom] {
        assert!(is_potentionally_relevant(Some(kind)), "{kind:?}");
    }
}

#[test]
fn content_of_no_known_kind_is_not_worth_a_look() {
    assert!(!is_potentionally_relevant(None));
}

#[test]
fn the_treatment_of_a_file() {
    assert_eq!(treatment(true, Some("bin")), Treatment::Skip);
    assert_eq!(treatment(true, None), Treatment::Skip);
    assert_eq!(treatment(false, Some("bin")), Treatment::Hash);
    assert_eq!(treatment(false, Some("gguf")), Treatment::Hash);
    assert_eq!(treatment(false, Some("txt")), Treatment::Inspect);
    assert_eq!(treatment(false, Some("")), Treatment::Inspect);
    assert_eq!(treatment(false, None), Treatment::Ignore);
}

#[test]
fn the_output_is_written_anew_after_every_interval() {
    assert!(is_sync_due(10, 10));
    assert!(is_sync_due(20, 10));
    assert!(!is_sync_due(11, 10));
    assert!(!is_sync_due(9, 10));
    assert!(is_sync_due(1, 1));
    assert!(is_sync_due(7, 1));
    assert!(is_sync_due(0, 3));
}
