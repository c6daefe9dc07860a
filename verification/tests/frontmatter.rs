use pocky::error::ParseError;
use pocky::frontmatter::line_is_delimiter;
use pocky::frontmatter::split;
use pocky::text::chars_of;
use pocky::text::is_whitespace;
use pocky::text::to_lower;
use pocky::text::trim_range;
use pocky::text::line_is_blank;
use pocky::text::split_lines;
use pocky::text::string_of;

fn parts(raw: &str) -> (Option<String>, String) {
    let document = split(raw).unwrap();
    (document.metadata_source, document.body)
}

#[test]
fn split_finds_the_front_matter() {
    assert_eq!(
        parts("---\ntitle: x\nauthor: y\n---\nbody\nmore\n"),
        (
            Some("title: x\nauthor: y\n".to_string()),
            "body\nmore\n".to_string()
        )
    );
}

#[test]
fn split_round_trip() {
    let metadata = "title: Round trip\ndate: 2023.8.29\n";
    let body = "# Heading\n\nSome text.\n";
    let raw = format!("---\n{}---\n{}", metadata, body);
    assert_eq!(parts(&raw), (Some(metadata.to_string()), body.to_string()));
}

#[test]
fn split_without_front_matter_is_identity() {
    let body = "# Hello\n\nworld\n";
    assert_eq!(parts(body), (None, body.to_string()));
}

#[test]
fn split_skips_leading_blank_lines() {
    assert_eq!(parts("\n  \n\t\nHello\n\nthere\n"), (None, "Hello\n\nthere\n".to_string()));
    assert_eq!(
        parts("\n\n---\na: b\n---\nbody\n"),
        (Some("a: b\n".to_string()), "body\n".to_string())
    );
}

#[test]
fn split_ends_every_body_line_with_one_line_feed() {
    assert_eq!(parts("last line"), (None, "last line\n".to_string()));
    assert_eq!(parts("a\r\nb\r\n"), (None, "a\nb\n".to_string()));
    assert_eq!(parts("a\rb"), (None, "a\rb\n".to_string()));
}

#[test]
fn split_reads_windows_line_endings() {
    assert_eq!(
        parts("---\r\ntitle: x\r\n---\r\nbody\r\n"),
        (Some("title: x\n".to_string()), "body\n".to_string())
    );
}

#[test]
fn split_of_an_unterminated_block_fails() {
    assert!(matches!(
        split("---\ntitle: x\nbody\n"),
        Err(ParseError::MalformedFrontmatter)
    ));
    assert!(matches!(split("---"), Err(ParseError::MalformedFrontmatter)));
}

#[test]
fn split_keeps_delimiters_in_the_body() {
    assert_eq!(
        parts("---\na: b\n---\nbody\n---\nmore\n---\n"),
        (
            Some("a: b\n".to_string()),
            "body\n---\nmore\n---\n".to_string()
        )
    );
}

#[test]
fn split_accepts_any_repeated_character() {
    assert_eq!(
        parts("=====\na: b\n***\nbody"),
        (Some("a: b\n".to_string()), "body\n".to_string())
    );
    assert_eq!(
        parts("---\n---\nbody"),
        (Some("".to_string()), "body\n".to_string())
    );
}

#[test]
fn split_of_empty_and_blank_documents() {
    assert_eq!(parts(""), (None, "".to_string()));
    assert_eq!(parts("\n\n   \n"), (None, "".to_string()));
}

#[test]
fn delimiter_lines() {
    let is = |line: &str| line_is_delimiter(&chars_of(line));
    assert!(is("---"));
    assert!(is("----------"));
    assert!(is("+++"));
    assert!(is("ééé"));
    assert!(!is("--"));
    assert!(!is(""));
    assert!(!is("--- "));
    assert!(!is("   "));
    assert!(!is("--="));
    assert!(!is("\t\t\t"));
}

#[test]
fn blank_lines() {
    let is = |line: &str| line_is_blank(&chars_of(line));
    assert!(is(""));
    assert!(is(" \t\u{a0}\u{3000}"));
    assert!(!is(" x "));
    assert!(!is("\u{200b}"));
}

#[test]
fn lines_of_a_text() {
    let lines = |text: &str| -> Vec<String> {
        split_lines(&chars_of(text))
            .iter()
            .map(|line| string_of(line))
            .collect()
    };
    assert_eq!(lines(""), Vec::<String>::new());
    assert_eq!(lines("a"), vec!["a"]);
    assert_eq!(lines("a\n"), vec!["a"]);
    assert_eq!(lines("a\n\nb"), vec!["a", "", "b"]);
    assert_eq!(lines("a\r\nb\n"), vec!["a", "b"]);
    assert_eq!(lines("\n"), vec![""]);
    assert_eq!(lines("a\n\n"), vec!["a", ""]);
    for text in ["", "a", "a\n", "a\n\nb", "a\r\nb\r\n", "\r\n\r", "x\ry\n", "\n\n\n"] {
        let expected: Vec<String> = text.lines().map(|l| l.to_string()).collect();
        assert_eq!(lines(text), expected);
    }
}

#[test]
fn white_space_is_the_unicode_set() {
    for code in 0u32..0x11_0000 {
        if let Some(c) = char::from_u32(code) {
            assert_eq!(is_whitespace(c), c.is_whitespace(), "U+{:04X}", code);
        }
    }
}

#[test]
fn trimming_and_lower_case() {
    let trim = |text: &str| {
        let chars = chars_of(text);
        string_of(&trim_range(&chars, 0, chars.len()))
    };
    for text in ["", " ", "a", "  a b  ", "\t\u{3000}x\u{a0}\n", "x  ", "  x", " \u{200b} "] {
        assert_eq!(trim(text), text.trim());
    }
    assert_eq!(string_of(&to_lower(&chars_of("AbC xyZ 09 É"))), "abc xyz 09 É");
    let chars = chars_of("  ab  cd  ");
    assert_eq!(string_of(&trim_range(&chars, 3, 7)), "b  c");
    assert_eq!(string_of(&trim_range(&chars, 4, 6)), "");
}
