use truth_store::reader::WalkEntry;
use truth_store::status::{status, RootProbe, TruthRepoStatus};

fn file(path: &str) -> WalkEntry {
    WalkEntry { depth: 2, is_file: true, path: path.to_string() }
}

fn full_probe() -> RootProbe {
    RootProbe {
        exists: true,
        claims: Some(vec![
            WalkEntry { depth: 1, is_file: false, path: "ab".to_string() },
            file("ab/cdef"),
            file("ab/0000"),
            WalkEntry { depth: 1, is_file: false, path: "ff".to_string() },
            file("ff/ffff"),
        ]),
        head: Some("ref: refs/heads/main\n".to_string()),
        has_private_key: true,
        has_public_key: true,
    }
}

#[test]
fn a_root_that_does_not_exist_is_reported_empty() {
    let probe = RootProbe {
        exists: false,
        claims: None,
        head: None,
        has_private_key: false,
        has_public_key: false,
    };
    assert_eq!(
        status("/home/u/.truth".to_string(), probe),
        TruthRepoStatus {
            exists: false,
            path: "/home/u/.truth".to_string(),
            claims_count: 0,
            head_ref: None,
            has_keys: false,
        }
    );
}

#[test]
fn a_root_that_does_not_exist_is_empty_whatever_else_was_found() {
    let probe = RootProbe { exists: false, ..full_probe() };
    let report = status("/r".to_string(), probe);
    assert!(!report.exists);
    assert_eq!(report.claims_count, 0);
    assert_eq!(report.head_ref, None);
    assert!(!report.has_keys);
    assert_eq!(report.path, "/r");
}

#[test]
fn an_existing_root_is_reported_as_found() {
    assert_eq!(
        status("/r".to_string(), full_probe()),
        TruthRepoStatus {
            exists: true,
            path: "/r".to_string(),
            claims_count: 3,
            head_ref: Some("ref: refs/heads/main\n".to_string()),
            has_keys: true,
        }
    );
}

#[test]
fn keys_need_both_files() {
    assert!(status("/r".to_string(), full_probe()).has_keys);
    let no_private = RootProbe { has_private_key: false, ..full_probe() };
    assert!(!status("/r".to_string(), no_private).has_keys);
    let no_public = RootProbe { has_public_key: false, ..full_probe() };
    assert!(!status("/r".to_string(), no_public).has_keys);
    let neither = RootProbe { has_private_key: false, has_public_key: false, ..full_probe() };
    assert!(!status("/r".to_string(), neither).has_keys);
}

#[test]
fn an_empty_store_exists_without_claims_or_head() {
    let probe = RootProbe {
        exists: true,
        claims: None,
        head: None,
        has_private_key: false,
        has_public_key: false,
    };
    let report = status("/r".to_string(), probe);
    assert!(report.exists);
    assert_eq!(report.claims_count, 0);
    assert_eq!(report.head_ref, None);
    assert!(!report.has_keys);
}

#[test]
fn damaged_objects_are_counted_too() {
    // Counting looks at the walk only: nothing is decoded.
    let probe = RootProbe { claims: Some(vec![file("ab/damaged")]), ..full_probe() };
    assert_eq!(status("/r".to_string(), probe).claims_count, 1);
}
