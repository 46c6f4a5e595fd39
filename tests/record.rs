use rusty_hitman::record::{format_count, parse_count, parse_highscore, read_stored_total, StoredTotal};
use rusty_hitman::scoring::Score;

#[test]
fn counts_are_written_as_digits() {
    assert_eq!(format_count(0), b"0".to_vec());
    assert_eq!(format_count(7), b"7".to_vec());
    assert_eq!(format_count(1_234_500), b"1234500".to_vec());
    assert_eq!(format_count(u64::MAX), b"18446744073709551615".to_vec());
}

#[test]
fn counts_are_read_back() {
    for n in [0u64, 9, 10, 170_000, 1_234_500, u64::MAX] {
        assert_eq!(parse_count(&format_count(n)), Some(n));
    }
    assert_eq!(parse_count(b"007"), Some(7));
}

#[test]
fn bad_counts_are_refused() {
    assert_eq!(parse_count(b""), None);
    assert_eq!(parse_count(b"12a"), None);
    assert_eq!(parse_count(b"1234.5"), None);
    assert_eq!(parse_count(b"-3"), None);
    assert_eq!(parse_count(b"18446744073709551616"), None);
    assert_eq!(parse_count(b"99999999999999999999x"), None);
}

#[test]
fn highscore_texts() {
    assert_eq!(parse_highscore(b"7", b"1234500"), Some(Score { level: 7, total: 1_234_500 }));
    assert_eq!(parse_highscore(b"7", b"oops"), None);
    assert_eq!(parse_highscore(b"", b"1"), None);
}

#[test]
fn stored_total_reads() {
    assert_eq!(read_stored_total(None), StoredTotal::Absent);
    assert_eq!(read_stored_total(Some(b"1234500")), StoredTotal::Total(1_234_500));
    assert_eq!(read_stored_total(Some(b"1234.5")), StoredTotal::Unreadable);
    assert_eq!(read_stored_total(Some(b"")), StoredTotal::Unreadable);
}
