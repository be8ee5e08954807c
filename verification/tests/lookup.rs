use flate2::write::ZlibEncoder;
use flate2::Compression;
use std::io::Write;
use truth_store::address::{resolve, Category};
use truth_store::codec::{DecodeStage, FileRead};
use truth_store::json::Json;
use truth_store::lookup::{carries_hash, lookup, LookupError};

fn stored(json: &str) -> FileRead {
    let mut encoder = ZlibEncoder::new(Vec::new(), Compression::default());
    encoder.write_all(json.as_bytes()).unwrap();
    FileRead::Bytes(encoder.finish().unwrap())
}

#[test]
fn a_found_object_is_decoded() {
    let probe = Some(stored(r#"{"$hash":"abcdef","content":"x"}"#));
    let value = lookup(Category::Claims, "abcdef", probe).unwrap();
    assert_eq!(value.get("content"), Some(&Json::Text("x".to_string())));
}

#[test]
fn a_short_hash_is_invalid_whatever_was_found() {
    for hash in ["", "a", "ab"] {
        assert_eq!(lookup(Category::Claims, hash, None), Err(LookupError::InvalidIdentifier));
        assert_eq!(
            lookup(Category::Claims, hash, Some(stored("{}"))),
            Err(LookupError::InvalidIdentifier)
        );
    }
}

#[test]
fn a_short_hash_names_no_path_to_probe() {
    assert!(resolve("/r", Category::Claims, "ab").is_err());
}

#[test]
fn a_missing_object_is_not_found() {
    let error = lookup(Category::Claims, "abcdef", None).unwrap_err();
    assert_eq!(
        error,
        LookupError::NotFound { category: Category::Claims, hash: "abcdef".to_string() }
    );
    assert_eq!(error.describe(), "Claim not found: abcdef");
    let error = lookup(Category::Verifications, "0f0f0f", None).unwrap_err();
    assert_eq!(error.describe(), "Verification not found: 0f0f0f");
}

#[test]
fn a_damaged_object_is_a_decode_error() {
    let error = lookup(Category::Claims, "abcdef", Some(FileRead::Bytes(vec![1, 2, 3])))
        .unwrap_err();
    match &error {
        LookupError::Decode(cause) => assert_eq!(cause.stage, DecodeStage::Inflate),
        other => panic!("unexpected {:?}", other),
    }
    assert!(error.describe().starts_with("Failed to decompress: "));
}

#[test]
fn an_unreadable_object_is_a_decode_error() {
    let probe = Some(FileRead::Unreadable("Is a directory (os error 21)".to_string()));
    let error = lookup(Category::Claims, "abcdef", probe).unwrap_err();
    assert_eq!(error.describe(), "Failed to open file: Is a directory (os error 21)");
}

#[test]
fn lookup_invalid_identifier_in_words() {
    assert_eq!(LookupError::InvalidIdentifier.describe(), "Invalid hash");
}

#[test]
fn an_object_carries_the_hash_it_is_stored_under() {
    let value = lookup(Category::Claims, "abcdef", Some(stored(r#"{"$hash":"abcdef"}"#))).unwrap();
    assert!(carries_hash(&value, "abcdef"));
    assert!(!carries_hash(&value, "abcdee"));
    assert!(!carries_hash(&Json::Object(vec![]), "abcdef"));
    assert!(!carries_hash(&Json::Null, "abcdef"));
}
