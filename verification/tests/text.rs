use nixpins::text::{chars_of, push_decimal, push_int, push_spaces, same_text, trim};

#[test]
fn chars_of_lists_the_characters() {
    assert_eq!(chars_of("aß→"), vec!['a', 'ß', '→']);
    assert_eq!(chars_of(""), Vec::<char>::new());
}

#[test]
fn same_text_compares_contents() {
    assert!(same_text("github", "github"));
    assert!(!same_text("github", "gitlab"));
    assert!(!same_text("github", "github "));
    assert!(same_text("", ""));
}

#[test]
fn push_spaces_appends() {
    let mut out = String::from("x");
    push_spaces(&mut out, 3);
    assert_eq!(out, "x   ");
    push_spaces(&mut out, 0);
    assert_eq!(out, "x   ");
}

#[test]
fn push_decimal_writes_digits() {
    for (n, text) in [
        (0u64, "0"),
        (7, "7"),
        (10, "10"),
        (109, "109"),
        (1234567890, "1234567890"),
        (u64::MAX, "18446744073709551615"),
    ] {
        let mut out = String::from("n=");
        push_decimal(&mut out, n);
        assert_eq!(out, format!("n={text}"));
        assert_eq!(text, n.to_string());
    }
}

#[test]
fn push_int_writes_the_sign() {
    for (i, text) in [
        (0i64, "0"),
        (-1, "-1"),
        (42, "42"),
        (-900, "-900"),
        (i64::MAX, "9223372036854775807"),
        (i64::MIN, "-9223372036854775808"),
    ] {
        let mut out = String::new();
        push_int(&mut out, i);
        assert_eq!(out, text);
        assert_eq!(text, i.to_string());
    }
}

#[test]
fn trim_removes_white_space_at_both_ends() {
    assert_eq!(trim("  a b \n"), "a b");
    assert_eq!(trim("\t\r\n x"), "x");
    assert_eq!(trim("x"), "x");
    assert_eq!(trim(""), "");
    assert_eq!(trim(" \n\t "), "");
    assert_eq!(trim("\u{a0}\u{2003}wide\u{3000}"), "wide");
    assert_eq!(trim("\u{200b}x"), "\u{200b}x");
}

#[test]
fn trim_agrees_with_the_standard_library() {
    for input in ["", " ", "a", " a", "a ", " a b ", "\n\na\u{85}", "\u{1680}x\u{2028}\u{2029}"] {
        assert_eq!(trim(input), input.trim());
    }
}
