use commit_runner::text::{append_decimal, append_decimal_u64, append_hex, is_space, trim};

#[test]
fn white_space_is_what_the_standard_library_calls_so() {
    for code in 0..=0x10FFFFu32 {
        if let Some(c) = char::from_u32(code) {
            assert_eq!(is_space(c), c.is_whitespace(), "U+{:04X}", code);
        }
    }
}

#[test]
fn white_space_has_twenty_five_code_points() {
    let count = (0..=0x10FFFFu32).filter_map(char::from_u32).filter(|c| is_space(*c)).count();
    assert_eq!(count, 25);
}

#[test]
fn trim_removes_white_space_at_both_ends_only() {
    assert_eq!(trim("  a b  "), "a b");
    assert_eq!(trim("\n\tfatal: bad revision\r\n"), "fatal: bad revision");
    assert_eq!(trim("x"), "x");
    assert_eq!(trim(" x"), "x");
    assert_eq!(trim("x "), "x");
    assert_eq!(trim("line one\nline two\n"), "line one\nline two");
}

#[test]
fn trim_of_white_space_alone_is_empty() {
    assert_eq!(trim(""), "");
    assert_eq!(trim(" "), "");
    assert_eq!(trim("\n\n\t \r\n"), "");
    assert_eq!(trim("\u{3000}\u{2028}\u{85}"), "");
}

#[test]
fn trim_knows_white_space_beyond_ascii() {
    assert_eq!(trim("\u{a0}caf\u{e9}\u{2003}"), "caf\u{e9}");
    assert_eq!(trim("\u{1680}\u{205f}\u{4e2d}\u{6587} \u{1f600}\u{202f}"), "\u{4e2d}\u{6587} \u{1f600}");
    // U+200B and U+180E are not white space.
    assert_eq!(trim("\u{200b}a\u{180e}"), "\u{200b}a\u{180e}");
}

#[test]
fn trim_agrees_with_the_standard_library() {
    let pieces = ["", " ", "\n", "\t", "a", "\u{a0}", "\u{e9}", "\u{3000}", "b c", "\u{1f600}", "\r\n"];
    for a in pieces {
        for b in pieces {
            for c in pieces {
                let text = format!("{}{}{}", a, b, c);
                assert_eq!(trim(&text), text.trim(), "{:?}", text);
            }
        }
    }
}

#[test]
fn decimal_of_edge_values() {
    for n in [0, 1, -1, 9, 10, 11, 99, 100, 101, 127, 128, 255, 256, -128, 1000, i32::MAX, i32::MIN, i32::MIN + 1] {
        let mut out = String::new();
        append_decimal(&mut out, n);
        assert_eq!(out, n.to_string());
    }
}

#[test]
fn decimal_is_appended_after_what_is_there() {
    let mut out = String::from("code ");
    append_decimal(&mut out, -42);
    assert_eq!(out, "code -42");
    append_decimal(&mut out, 7);
    assert_eq!(out, "code -427");
}

#[test]
fn decimal_of_unsigned_edge_values() {
    for n in [0u64, 5, 10, 18_446_744_073_709_551_615, 1_000_000_000_000, 9_999_999_999] {
        let mut out = String::new();
        append_decimal_u64(&mut out, n);
        assert_eq!(out, n.to_string());
    }
}

#[test]
fn hex_has_two_digits_per_byte() {
    let mut out = String::from(">");
    append_hex(&mut out, &[0x00, 0x0a, 0xa0, 0xff, 0x5c]);
    assert_eq!(out, ">000aa0ff5c");
    let mut empty = String::new();
    append_hex(&mut empty, &[]);
    assert_eq!(empty, "");
}
