use coloursum::{find_bsd_tag_line, find_sum_prefixed_line, FormattableLine};

fn bytes(s: &str) -> Vec<u8> {
    s.as_bytes().to_vec()
}

#[test]
fn from_string_works() {
    let string = "MD5 (./src/main.rs) = b7527e0e28c09f6f62dd2d4197d5d225".to_string();
    let line = FormattableLine::from(string.clone().into_bytes());

    assert_eq!(line.contents, string.into_bytes());
    assert_eq!(line.formattable_start, Some(22));
    assert_eq!(line.formattable_end, None);
}

#[test]
fn find_bsd_tag_line_works() {
    assert_eq!(
        find_bsd_tag_line(&bytes("MD5 (./src/main.rs) = b7527e0e28c09f6f62dd2d4197d5d225")),
        Some(22)
    );
    assert_eq!(
        find_bsd_tag_line(&bytes("b7527e0e28c09f6f62dd2d4197d5d225  ./src/main.rs")),
        None
    );
    assert_eq!(
        find_bsd_tag_line(&bytes(
            "3e08ba70bfc57da75612af458c7ea94108f9a9ddf9d1bfd96de9c0e34e684bda  ./src/main.rs"
        )),
        None
    );
}

#[test]
fn find_sum_prefixed_line_works() {
    assert_eq!(
        find_sum_prefixed_line(&bytes("b7527e0e28c09f6f62dd2d4197d5d225  ./src/main.rs")),
        Some(32)
    );
    assert_eq!(
        find_sum_prefixed_line(&bytes(
            "3e08ba70bfc57da75612af458c7ea94108f9a9ddf9d1bfd96de9c0e34e684bda  ./src/main.rs"
        )),
        Some(64)
    );
    assert_eq!(
        find_sum_prefixed_line(&bytes("MD5 (./src/main.rs) = b7527e0e28c09f6f62dd2d4197d5d225")),
        None
    );
}

#[test]
fn classification_is_repeatable() {
    let text = "MD5 (./src/main.rs) = b7527e0e28c09f6f62dd2d4197d5d225";
    let first = FormattableLine::from(bytes(text));
    let second = FormattableLine::from(bytes(text));

    assert_eq!(first.contents, second.contents);
    assert_eq!(first.formattable_start, second.formattable_start);
    assert_eq!(first.formattable_end, second.formattable_end);
}

#[test]
fn bsd_form_takes_precedence_over_double_space() {
    // Holds both a " = " separator and a double space: the separator wins.
    let line = FormattableLine::from(bytes("MD5 (a  b) = deadbeef"));

    assert_eq!(line.formattable_start, Some(13));
    assert_eq!(line.formattable_end, None);
}

#[test]
fn last_separator_occurrence_wins() {
    // The path itself contains " = "; the digest starts after the last one.
    assert_eq!(find_bsd_tag_line(&bytes("MD5 (a = b) = deadbeef")), Some(14));
}

#[test]
fn unclassified_line_has_no_span() {
    let line = FormattableLine::from(bytes("ASDF"));

    assert_eq!(line.formattable_start, None);
    assert_eq!(line.formattable_end, None);

    let empty = FormattableLine::from(bytes(""));

    assert_eq!(empty.formattable_start, None);
    assert_eq!(empty.formattable_end, None);
}
