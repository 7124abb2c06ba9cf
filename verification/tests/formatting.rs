use coloursum::{ecoji_round_trip, ANSIColouredLine, EcojiLine, Line, OnePasswordLine};

fn bytes(s: &str) -> Vec<u8> {
    s.as_bytes().to_vec()
}

fn text(v: Vec<u8>) -> String {
    String::from_utf8(v).unwrap()
}

#[test]
fn ansi_coloured_line_display_works() {
    assert_eq!(
        text(ANSIColouredLine::from(bytes("MD5 (./src/main.rs) = b7527e0e28c09f6f62dd2d4197d5d225")).to_formatted()),
        "MD5 (./src/main.rs) = \u{1b}[38;5;183mb7\u{1b}[0m\u{1b}[38;5;82m52\u{1b}[0m\u{1b}[38;5;126m7e\u{1b}[0m\u{1b}[38;5;14m0e\u{1b}[0m\u{1b}[38;5;40m28\u{1b}[0m\u{1b}[38;5;192mc0\u{1b}[0m\u{1b}[38;5;159m9f\u{1b}[0m\u{1b}[38;5;111m6f\u{1b}[0m\u{1b}[38;5;98m62\u{1b}[0m\u{1b}[38;5;221mdd\u{1b}[0m\u{1b}[38;5;45m2d\u{1b}[0m\u{1b}[38;5;65m41\u{1b}[0m\u{1b}[38;5;151m97\u{1b}[0m\u{1b}[38;5;213md5\u{1b}[0m\u{1b}[38;5;210md2\u{1b}[0m\u{1b}[38;5;37m25\u{1b}[0m"
    )
}

#[test]
fn ansi_coloured_line_format_hash_works() {
    assert_eq!(
        text(ANSIColouredLine::format_hash(bytes("b7527e0e28c09f6f62dd2d4197d5d225"))),
        "\u{1b}[38;5;183mb7\u{1b}[0m\u{1b}[38;5;82m52\u{1b}[0m\u{1b}[38;5;126m7e\u{1b}[0m\u{1b}[38;5;14m0e\u{1b}[0m\u{1b}[38;5;40m28\u{1b}[0m\u{1b}[38;5;192mc0\u{1b}[0m\u{1b}[38;5;159m9f\u{1b}[0m\u{1b}[38;5;111m6f\u{1b}[0m\u{1b}[38;5;98m62\u{1b}[0m\u{1b}[38;5;221mdd\u{1b}[0m\u{1b}[38;5;45m2d\u{1b}[0m\u{1b}[38;5;65m41\u{1b}[0m\u{1b}[38;5;151m97\u{1b}[0m\u{1b}[38;5;213md5\u{1b}[0m\u{1b}[38;5;210md2\u{1b}[0m\u{1b}[38;5;37m25\u{1b}[0m"
    );
}

#[test]
fn ansi_coloured_line_format_hash_doesnt_crash_on_non_base16_characters() {
    ANSIColouredLine::format_hash(bytes("ASDF"));
    ANSIColouredLine::format_hash(bytes("\u{1F604}"));
}

#[test]
fn ecoji_line_display_works() {
    assert_eq!(
        text(EcojiLine::from(bytes("MD5 (./src/main.rs) = b7527e0e28c09f6f62dd2d4197d5d225")).to_formatted()),
        "MD5 (./src/main.rs) = \u{1F628}\u{1F3F8}\u{1F930}\u{1F4FA}\u{1F64E}\u{1F4C7}\u{1F98E}\u{1F628}\u{1F37D}\u{1F1EE}\u{1F4C6}\u{1F4A3}\u{1F35C}\u{2615}\u{2615}\u{2615}"
    )
}

#[test]
fn ecoji_line_format_hash_works() {
    assert_eq!(
        text(EcojiLine::format_hash(bytes("cc6917b830dae305766d1d72d7bd9fdc673272b2"))),
        "\u{1F6AD}\u{1F579}\u{1F4BF}\u{1F233}\u{1F918}\u{1F503}\u{1F42E}\u{1F54B}\u{1F33D}\u{1F6A9}\u{1F4C0}\u{1F470}\u{1F91E}\u{1F552}\u{1F364}\u{1F5FD}"
    );
}

#[test]
fn ecoji_line_format_hash_doesnt_crash_on_non_base16_characters() {
    EcojiLine::format_hash(bytes("ASDF"));
    EcojiLine::format_hash(bytes("\u{1F604}"));
}

#[test]
fn onepassword_line_format_hash_works() {
    assert_eq!(
        text(OnePasswordLine::format_hash(bytes("b7527e0e28c09f6f62dd2d4197d5d225"))),
        "b\u{1b}[38;5;4m7\u{1b}[0m\u{1b}[38;5;4m5\u{1b}[0m\u{1b}[38;5;4m2\u{1b}[0m\u{1b}[38;5;4m7\u{1b}[0me\u{1b}[38;5;4m0\u{1b}[0me\u{1b}[38;5;4m2\u{1b}[0m\u{1b}[38;5;4m8\u{1b}[0mc\u{1b}[38;5;4m0\u{1b}[0m\u{1b}[38;5;4m9\u{1b}[0mf\u{1b}[38;5;4m6\u{1b}[0mf\u{1b}[38;5;4m6\u{1b}[0m\u{1b}[38;5;4m2\u{1b}[0mdd\u{1b}[38;5;4m2\u{1b}[0md\u{1b}[38;5;4m4\u{1b}[0m\u{1b}[38;5;4m1\u{1b}[0m\u{1b}[38;5;4m9\u{1b}[0m\u{1b}[38;5;4m7\u{1b}[0md\u{1b}[38;5;4m5\u{1b}[0md\u{1b}[38;5;4m2\u{1b}[0m\u{1b}[38;5;4m2\u{1b}[0m\u{1b}[38;5;4m5\u{1b}[0m"
    );
}

#[test]
fn onepassword_line_format_hash_doesnt_crash_on_non_base16_characters() {
    OnePasswordLine::format_hash(bytes("ASDF"));
    OnePasswordLine::format_hash(bytes("\u{f0}\u{178}\u{2dc}\u{201e}"));
}

#[test]
fn fallback_returns_input_unchanged() {
    // Not hexadecimal at all.
    assert_eq!(ANSIColouredLine::format_hash(bytes("ASDF")), bytes("ASDF"));
    assert_eq!(EcojiLine::format_hash(bytes("ASDF")), bytes("ASDF"));
    // Odd length, even though every character is a hexadecimal digit.
    assert_eq!(ANSIColouredLine::format_hash(bytes("abc")), bytes("abc"));
    assert_eq!(EcojiLine::format_hash(bytes("abc")), bytes("abc"));
    // Multi-byte non-ASCII characters.
    assert_eq!(
        ANSIColouredLine::format_hash(bytes("\u{1F604}")),
        bytes("\u{1F604}")
    );
    assert_eq!(EcojiLine::format_hash(bytes("\u{1F604}")), bytes("\u{1F604}"));
    // The empty string formats to itself.
    assert_eq!(ANSIColouredLine::format_hash(Vec::new()), Vec::<u8>::new());
    assert_eq!(EcojiLine::format_hash(Vec::new()), Vec::<u8>::new());
}

#[test]
fn ecoji_round_trip_recovers_bytes() {
    let data: Vec<u8> = vec![0x84, 0x1d, 0x46, 0x2b, 0x66, 0xe1, 0xf4, 0xbb, 0x83, 0x9a];
    assert_eq!(ecoji_round_trip(&data), Some(data.clone()));

    let block: Vec<u8> = vec![0, 1, 2, 3, 4];
    assert_eq!(ecoji_round_trip(&block), Some(block.clone()));

    let empty: Vec<u8> = Vec::new();
    assert_eq!(ecoji_round_trip(&empty), Some(empty.clone()));
}

#[test]
fn passthrough_line_is_unchanged_in_every_mode() {
    assert_eq!(text(ANSIColouredLine::from(bytes("ASDF")).to_formatted()), "ASDF");
    assert_eq!(text(EcojiLine::from(bytes("ASDF")).to_formatted()), "ASDF");
    assert_eq!(text(OnePasswordLine::from(bytes("ASDF")).to_formatted()), "ASDF");
}

#[test]
fn gnu_form_line_colours_digest_and_keeps_suffix() {
    assert_eq!(
        text(ANSIColouredLine::from(bytes("b7527e0e28c09f6f62dd2d4197d5d225  ./src/main.rs")).to_formatted()),
        "\u{1b}[38;5;183mb7\u{1b}[0m\u{1b}[38;5;82m52\u{1b}[0m\u{1b}[38;5;126m7e\u{1b}[0m\u{1b}[38;5;14m0e\u{1b}[0m\u{1b}[38;5;40m28\u{1b}[0m\u{1b}[38;5;192mc0\u{1b}[0m\u{1b}[38;5;159m9f\u{1b}[0m\u{1b}[38;5;111m6f\u{1b}[0m\u{1b}[38;5;98m62\u{1b}[0m\u{1b}[38;5;221mdd\u{1b}[0m\u{1b}[38;5;45m2d\u{1b}[0m\u{1b}[38;5;65m41\u{1b}[0m\u{1b}[38;5;151m97\u{1b}[0m\u{1b}[38;5;213md5\u{1b}[0m\u{1b}[38;5;210md2\u{1b}[0m\u{1b}[38;5;37m25\u{1b}[0m  ./src/main.rs"
    );
}

#[test]
fn gnu_form_line_encodes_digest_as_emoji_and_keeps_suffix() {
    assert_eq!(
        text(EcojiLine::from(bytes("841d462b66e1f4bb839a1b72ab3f3668  ./src/ecoji_line.rs")).to_formatted()),
        "\u{1F4E2}\u{1F4A5}\u{1F45B}\u{1F913}\u{1F934}\u{1F6CC}\u{1F62B}\u{1F94A}\u{1F335}\u{1F6A6}\u{1F61A}\u{1F6B2}\u{1F471}\u{2615}\u{2615}\u{2615}  ./src/ecoji_line.rs"
    );
}

#[test]
fn malformed_digest_span_is_emitted_unchanged() {
    // A BSD-style separator forces a span, but its text is not valid
    // hexadecimal: the span falls back to itself, the rest is untouched.
    assert_eq!(
        text(ANSIColouredLine::from(bytes("MD5 (./x) = WXYZ")).to_formatted()),
        "MD5 (./x) = WXYZ"
    );
}

#[test]
fn digit_highlight_wraps_every_digit_and_only_digits() {
    let digest = "3e08ba70bfc57da75612af458c7ea94108f9a9ddf9d1bfd96de9c0e34e684bda";
    let line = format!("{}  ./src/main.rs", digest);
    let mut expected = String::new();
    for c in digest.chars() {
        if c.is_ascii_digit() {
            expected.push_str(&format!("\u{1b}[38;5;4m{}\u{1b}[0m", c));
        } else {
            expected.push(c);
        }
    }
    expected.push_str("  ./src/main.rs");

    assert_eq!(text(OnePasswordLine::from(bytes(&line)).to_formatted()), expected);
}
