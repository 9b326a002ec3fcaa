use dadada::text::{
    blank, char_is_space, decimal_text, escape, escape_lines, join_lines, same_text, starts_with,
    trim,
};

#[test]
fn trim_removes_whitespace_at_both_ends_only() {
    assert_eq!(trim("  a b  "), "a b");
    assert_eq!(trim("\t\r\nx\u{3000}\u{2028}"), "x");
    assert_eq!(trim(""), "");
    assert_eq!(trim(" \u{85} "), "");
    assert_eq!(trim("\u{200b}x"), "\u{200b}x");
    assert_eq!(trim("é ü"), "é ü");
}

#[test]
fn whitespace_is_the_unicode_property() {
    let mut c = 0u32;
    while c <= 0x10FFFF {
        if let Some(ch) = char::from_u32(c) {
            assert_eq!(char_is_space(ch), ch.is_whitespace());
        }
        c += 1;
    }
}

#[test]
fn blank_lines() {
    assert!(blank(""));
    assert!(blank(" \t\u{a0}"));
    assert!(!blank(" . "));
}

#[test]
fn prefixes_and_equality() {
    assert!(starts_with("// x", "//"));
    assert!(starts_with("//", "//"));
    assert!(starts_with("abc", ""));
    assert!(!starts_with("/", "//"));
    assert!(!starts_with("a//", "//"));
    assert!(same_text("md", "md"));
    assert!(!same_text("md", "mdown"));
    assert!(!same_text("md", "mb"));
}

#[test]
fn lines_are_joined_by_line_feeds() {
    assert_eq!(join_lines(&Vec::new()), "");
    assert_eq!(join_lines(&vec!["one".to_string()]), "one");
    assert_eq!(
        join_lines(&vec!["a".to_string(), String::new(), "b".to_string()]),
        "a\n\nb"
    );
}

#[test]
fn only_the_less_than_sign_is_escaped() {
    assert_eq!(escape("Vec<Option<u8>> & 'x' \"y\""), "Vec&lt;Option&lt;u8>> & 'x' \"y\"");
    assert_eq!(escape(""), "");
    assert_eq!(escape("<"), "&lt;");
    assert_eq!(escape("&lt;"), "&lt;");
    assert_eq!(escape("é<ü"), "é&lt;ü");
}

#[test]
fn decimal_numerals() {
    assert_eq!(decimal_text(0), "0");
    assert_eq!(decimal_text(7), "7");
    assert_eq!(decimal_text(10), "10");
    assert_eq!(decimal_text(1234567890), "1234567890");
    assert_eq!(decimal_text(usize::MAX), usize::MAX.to_string());
}

#[test]
fn lines_are_escaped_and_joined() {
    assert_eq!(escape_lines(&Vec::new()), "");
    assert_eq!(
        escape_lines(&vec!["a < b".to_string(), String::new(), "<<".to_string()]),
        "a &lt; b\n\n&lt;&lt;"
    );
    let lines = vec!["if a<b {".to_string(), "}".to_string()];
    assert_eq!(escape_lines(&lines), escape(&join_lines(&lines)));
}

#[test]
fn trim_agrees_with_the_standard_library() {
    let samples = [
        "",
        " ",
        "x",
        "  leading",
        "trailing \t",
        " \u{1680}both\u{205f} ",
        "in  side",
        "\u{feff}bom ",
        "\n\r\n",
        "// comment  ",
        "   /// doc — dash ",
        "\u{2000}\u{200a}é\u{202f}",
    ];
    for s in samples {
        assert_eq!(trim(s), s.trim());
        assert_eq!(blank(s), s.trim().is_empty());
    }
}
