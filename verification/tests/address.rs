use truth_store::address::{
    category_dir, resolve, store_file, store_root, AddressError, Category, RootError, StoreFile,
    MIN_HASH_LEN, PREFIX_LEN,
};

#[test]
fn resolve_fans_out_by_the_first_two_characters() {
    let path = resolve("/home/u/.truth", Category::Claims, "abcdef0123");
    assert_eq!(path, Ok("/home/u/.truth/objects/cl/ab/cdef0123".to_string()));
}

#[test]
fn resolve_uses_the_category_code() {
    let path = resolve("/r", Category::Verifications, "0f9e8d");
    assert_eq!(path, Ok("/r/objects/vf/0f/9e8d".to_string()));
}

#[test]
fn resolve_accepts_the_shortest_hash() {
    assert_eq!(resolve("/r", Category::Claims, "abc"), Ok("/r/objects/cl/ab/c".to_string()));
}

#[test]
fn resolve_rejects_hashes_shorter_than_three() {
    for hash in ["", "a", "ab"] {
        assert_eq!(resolve("/r", Category::Claims, hash), Err(AddressError::InvalidIdentifier));
        assert_eq!(
            resolve("/r", Category::Verifications, hash),
            Err(AddressError::InvalidIdentifier)
        );
    }
}

#[test]
fn resolve_counts_characters_not_bytes() {
    // Two characters, three bytes: too short.
    assert_eq!(resolve("/r", Category::Claims, "\u{e9}a"), Err(AddressError::InvalidIdentifier));
    // Three characters: the prefix is the first two of them.
    assert_eq!(
        resolve("/r", Category::Claims, "a\u{e9}b"),
        Ok("/r/objects/cl/a\u{e9}/b".to_string())
    );
}

#[test]
fn resolve_keeps_the_path_under_the_root() {
    let path = resolve("/r", Category::Claims, "ab/etc/passwd").unwrap();
    assert_eq!(path, "/r/objects/cl/ab//etc/passwd");
    assert!(path.starts_with("/r/objects/cl/"));
}

#[test]
fn prefix_and_minimum_lengths() {
    assert_eq!(PREFIX_LEN, 2);
    assert_eq!(MIN_HASH_LEN, 3);
}

#[test]
fn invalid_identifier_in_words() {
    assert_eq!(AddressError::InvalidIdentifier.describe(), "Invalid hash");
}

#[test]
fn category_directories() {
    assert_eq!(category_dir("/r", Category::Claims), "/r/objects/cl");
    assert_eq!(category_dir("/r", Category::Verifications), "/r/objects/vf");
    assert_eq!(Category::Claims.code(), "cl");
    assert_eq!(Category::Verifications.code(), "vf");
    assert_eq!(Category::Claims.title(), "Claim");
    assert_eq!(Category::Verifications.title(), "Verification");
}

#[test]
fn store_root_lies_under_home() {
    assert_eq!(
        store_root(Some("/home/u")),
        Ok("/home/u/Almacen_IA/LumenSyntax-Main/.truth".to_string())
    );
}

#[test]
fn store_root_needs_a_home() {
    assert_eq!(store_root(None), Err(RootError::NoHome));
    assert_eq!(RootError::NoHome.describe(), "Could not find home directory");
}

#[test]
fn files_under_the_root() {
    assert_eq!(store_file("/r", StoreFile::Head), "/r/HEAD");
    assert_eq!(store_file("/r", StoreFile::PrivateKey), "/r/proof.key");
    assert_eq!(store_file("/r", StoreFile::PublicKey), "/r/proof.pub");
    assert_eq!(store_file("/r", StoreFile::AuditLog), "/r/audit.json");
}
