use git_credit::summary::{abbreviate_oid, amendment_summary};

#[test]
fn formats_amendment_summaries() {
    assert_eq!(
        amendment_summary(1, "0123456789abcdef", "fedcba9876543210"),
        "Added 1 co-author: 01234567 -> fedcba98"
    );
    assert_eq!(
        amendment_summary(2, "old", "new"),
        "Added 2 co-authors: old -> new"
    );
}

#[test]
fn abbreviates_long_ids_to_eight_bytes() {
    assert_eq!(abbreviate_oid("0123456789abcdef0123456789abcdef01234567"), "01234567");
    assert_eq!(abbreviate_oid("01234567"), "01234567");
    assert_eq!(abbreviate_oid("0123456"), "0123456");
}

#[test]
fn keeps_ids_whose_eighth_byte_splits_a_character() {
    // "é" takes two bytes, so byte 8 falls inside it.
    assert_eq!(abbreviate_oid("abcdefgé123"), "abcdefgé123");
}

#[test]
fn counts_zero_and_large_numbers_of_co_authors() {
    assert_eq!(amendment_summary(0, "a", "b"), "Added 0 co-authors: a -> b");
    assert_eq!(amendment_summary(1234567, "a", "b"), "Added 1234567 co-authors: a -> b");
}
