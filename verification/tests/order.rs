use truth_store::order::{bytes_before, text_before};

#[test]
fn earlier_dates_come_before_later_ones() {
    assert!(text_before("2023-01-01", "2024-01-01"));
    assert!(text_before("2024-01-01", "2024-06-01"));
    assert!(!text_before("2024-06-01", "2024-01-01"));
}

#[test]
fn nothing_comes_before_itself() {
    assert!(!text_before("2024-01-01", "2024-01-01"));
    assert!(!text_before("", ""));
}

#[test]
fn the_empty_text_comes_first() {
    assert!(text_before("", "0"));
    assert!(!text_before("0", ""));
}

#[test]
fn a_prefix_comes_before_its_extensions() {
    assert!(text_before("2024", "2024-01"));
    assert!(!text_before("2024-01", "2024"));
}

#[test]
fn text_order_agrees_with_the_standard_order() {
    let samples = ["", "a", "ab", "b", "2024-01-01T00:00:00Z", "2024-01-01", "\u{e9}", "z", "Z"];
    for a in samples {
        for b in samples {
            assert_eq!(text_before(a, b), a < b, "{:?} < {:?}", a, b);
        }
    }
}

#[test]
fn bytes_are_compared_unsigned() {
    assert!(bytes_before(&[0x7f], &[0x80]));
    assert!(bytes_before(&[1, 2], &[1, 3]));
    assert!(bytes_before(&[], &[0]));
    assert!(!bytes_before(&[1, 3], &[1, 2]));
    assert!(!bytes_before(&[0], &[]));
}
