use crate_patcher::content::Content;
use crate_patcher::error::ErrorKind;
use crate_patcher::text::same_text;

#[test]
fn well_formed_bytes_are_text() {
    assert_eq!(
        Content::from_bytes(b"hello\n".to_vec()),
        Content::Text("hello\n".to_string())
    );
    assert_eq!(Content::from_bytes(Vec::new()), Content::Text(String::new()));
    assert_eq!(
        Content::from_bytes("grüße ✓".as_bytes().to_vec()),
        Content::Text("grüße ✓".to_string())
    );
}

#[test]
fn ill_formed_bytes_are_binary() {
    assert_eq!(
        Content::from_bytes(vec![0xff, 0xfe, 0x00]),
        Content::Binary(vec![0xff, 0xfe, 0x00])
    );
    assert_eq!(Content::from_bytes(vec![0xc3]), Content::Binary(vec![0xc3]));
    assert_eq!(
        Content::from_bytes(vec![b'a', 0x80, b'b']),
        Content::Binary(vec![b'a', 0x80, b'b'])
    );
}

#[test]
fn is_text_tells_the_two_apart() {
    assert!(Content::Text("a".to_string()).is_text());
    assert!(!Content::Binary(vec![1, 2]).is_text());
}

#[test]
fn to_bytes_gives_back_what_was_read() {
    let inputs: Vec<Vec<u8>> = vec![
        b"plain".to_vec(),
        "ünïcödé".as_bytes().to_vec(),
        vec![0xff, 0x00, 0x80],
        Vec::new(),
    ];
    for bytes in inputs {
        assert_eq!(Content::from_bytes(bytes.clone()).to_bytes(), bytes);
    }
}

#[test]
fn duplicate_is_equal() {
    let text = Content::Text("a\nb".to_string());
    let binary = Content::Binary(vec![9, 8, 7]);
    assert_eq!(text.duplicate(), text);
    assert_eq!(binary.duplicate(), binary);
}

#[test]
fn same_text_compares_characters() {
    assert!(same_text("", ""));
    assert!(same_text("abc", "abc"));
    assert!(same_text("é✓", "é✓"));
    assert!(!same_text("abc", "abd"));
    assert!(!same_text("abc", "ab"));
    assert!(!same_text("", "a"));
    assert!(!same_text("e\u{301}", "é"));
}

#[test]
fn every_error_kind_has_its_description() {
    assert_eq!(
        ErrorKind::NetworkFailure.describe(),
        "the registry did not deliver the archive"
    );
    assert_eq!(ErrorKind::ArchiveCorrupt.describe(), "the archive could not be unpacked");
    assert_eq!(ErrorKind::ManifestParse.describe(), "a manifest is malformed");
    assert_eq!(ErrorKind::PatchApplyFailure.describe(), "a patch record does not apply");
    assert_eq!(ErrorKind::Filesystem.describe(), "a file could not be read or written");
}
