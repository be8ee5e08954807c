use truth_store::audit::{append_entry, prepend, read_log, AuditEntry, AuditError, LogFile};

fn entry(id: &str) -> AuditEntry {
    AuditEntry {
        id: id.to_string(),
        timestamp: "2024-01-01T00:00:00Z".to_string(),
        action: "verify".to_string(),
        claim: "water is wet".to_string(),
        domain: "physics".to_string(),
        risk_profile: "low".to_string(),
        result_status: "PASSED".to_string(),
        result_action: "allow".to_string(),
        confidence: 0.9f64.to_bits(),
    }
}

#[test]
fn the_first_entry_is_the_whole_log() {
    assert_eq!(append_entry(LogFile::Absent, entry("e")), Ok(vec![entry("e")]));
}

#[test]
fn a_later_entry_comes_first() {
    let after_first = append_entry(LogFile::Absent, entry("e")).unwrap();
    let after_second = append_entry(LogFile::Entries(after_first), entry("e2")).unwrap();
    assert_eq!(after_second, vec![entry("e2"), entry("e")]);
}

#[test]
fn older_entries_keep_their_order() {
    let log = vec![entry("c"), entry("b"), entry("a")];
    assert_eq!(
        append_entry(LogFile::Entries(log), entry("d")),
        Ok(vec![entry("d"), entry("c"), entry("b"), entry("a")])
    );
}

#[test]
fn entries_are_not_sorted_on_insertion() {
    let mut old = entry("old");
    old.timestamp = "2020-01-01T00:00:00Z".to_string();
    let mut new = entry("new");
    new.timestamp = "2030-01-01T00:00:00Z".to_string();
    let log = append_entry(LogFile::Entries(vec![new.clone()]), old.clone()).unwrap();
    assert_eq!(log, vec![old, new]);
}

#[test]
fn a_damaged_log_is_started_afresh_on_append() {
    let file = LogFile::Malformed("expected value at line 1 column 1".to_string());
    assert_eq!(append_entry(file, entry("e")), Ok(vec![entry("e")]));
}

#[test]
fn an_unreadable_log_stops_an_append() {
    let file = LogFile::Unreadable("Permission denied (os error 13)".to_string());
    assert_eq!(
        append_entry(file, entry("e")),
        Err(AuditError::Read("Permission denied (os error 13)".to_string()))
    );
}

#[test]
fn a_missing_log_reads_as_empty() {
    assert_eq!(read_log(LogFile::Absent), Ok(vec![]));
}

#[test]
fn a_log_reads_as_it_is_stored() {
    let log = vec![entry("b"), entry("a")];
    assert_eq!(read_log(LogFile::Entries(log)), Ok(vec![entry("b"), entry("a")]));
    assert_eq!(read_log(LogFile::Entries(vec![])), Ok(vec![]));
}

#[test]
fn a_damaged_log_is_an_error_for_a_reader() {
    let file = LogFile::Malformed("EOF while parsing a list".to_string());
    let error = read_log(file).unwrap_err();
    assert_eq!(error, AuditError::Parse("EOF while parsing a list".to_string()));
    assert_eq!(error.describe(), "Failed to parse audit file: EOF while parsing a list");
}

#[test]
fn an_unreadable_log_is_an_error_for_a_reader() {
    let error = read_log(LogFile::Unreadable("denied".to_string())).unwrap_err();
    assert_eq!(error, AuditError::Read("denied".to_string()));
    assert_eq!(error.describe(), "Failed to read audit file: denied");
}

#[test]
fn audit_errors_in_words() {
    assert_eq!(
        AuditError::Serialize("key must be a string".to_string()).describe(),
        "Failed to serialize audit: key must be a string"
    );
    assert_eq!(
        AuditError::Write("disk full".to_string()).describe(),
        "Failed to write audit file: disk full"
    );
}

#[test]
fn prepend_puts_the_entry_at_position_zero() {
    assert_eq!(prepend(vec![], entry("a")), vec![entry("a")]);
    assert_eq!(prepend(vec![entry("a")], entry("b")), vec![entry("b"), entry("a")]);
    let log = prepend(vec![entry("b"), entry("a")], entry("c"));
    assert_eq!(log[0], entry("c"));
    assert_eq!(log.len(), 3);
}

#[test]
fn confidence_survives_as_bits() {
    let stored = entry("e");
    assert_eq!(f64::from_bits(stored.confidence), 0.9);
}
