use pocky::date::Date;
use pocky::error::ParseError;
use pocky::fields::Fields;
use pocky::metadata::parse_status;
use pocky::metadata::split_tags;
use pocky::metadata::BlogPostMetadata;
use pocky::metadata::BlogPostStatus;
use pocky::metadata::Cover;

const FULL: &str = "Title: Cool video games
author: McKayla
date: 2023.8.29
summary: Games that are *cool*
tags: rust, systems , parsing
cover: https://example.com/cover.png
accent_color: #ff00ff
status: Unlisted
hn: https://news.example.com/item?id=1
lobsters: https://lobste.rs/s/abc
mood: ignored
";

#[test]
fn decode_reads_every_field() {
    let m = BlogPostMetadata::decode(FULL, false).unwrap();
    assert_eq!(m.title, "Cool video games");
    assert_eq!(m.author, "McKayla");
    assert_eq!(m.date, Some(Date { year: 2023, month: 8, day: 29 }));
    assert_eq!(m.summary, Some("Games that are *cool*".to_string()));
    assert_eq!(m.tags, vec!["rust", "systems", "parsing"]);
    assert!(matches!(m.cover, Some(Cover::Url(ref u)) if u == "https://example.com/cover.png"));
    assert_eq!(m.accent_color, Some("#ff00ff".to_string()));
    assert_eq!(m.status, BlogPostStatus::Unlisted);
    assert_eq!(m.hn, Some("https://news.example.com/item?id=1".to_string()));
    assert_eq!(m.lobsters, Some("https://lobste.rs/s/abc".to_string()));
}

#[test]
fn decode_renders_the_summary_on_request() {
    let m = BlogPostMetadata::decode(FULL, true).unwrap();
    assert_eq!(
        m.summary,
        Some("<p>Games that are <em>cool</em></p>\n".to_string())
    );
    assert_eq!(m.title, "Cool video games");
}

#[test]
fn decode_of_the_least_metadata() {
    let m = BlogPostMetadata::decode("title: T\nauthor: A\n", true).unwrap();
    assert_eq!(m.title, "T");
    assert_eq!(m.author, "A");
    assert_eq!(m.date, None);
    assert_eq!(m.summary, None);
    assert!(m.tags.is_empty());
    assert!(m.cover.is_none());
    assert_eq!(m.accent_color, None);
    assert_eq!(m.hn, None);
    assert_eq!(m.lobsters, None);
}

#[test]
fn status_defaults_to_published() {
    let m = BlogPostMetadata::decode("title: T\nauthor: A\n", false).unwrap();
    assert_eq!(m.status, BlogPostStatus::Published);
    assert_eq!(BlogPostStatus::default(), BlogPostStatus::Published);
}

#[test]
fn status_is_read_whatever_its_case() {
    assert_eq!(parse_status("draft").unwrap(), BlogPostStatus::Draft);
    assert_eq!(parse_status("DRAFT").unwrap(), BlogPostStatus::Draft);
    assert_eq!(parse_status("Test").unwrap(), BlogPostStatus::Test);
    assert_eq!(parse_status("pUbLiShEd").unwrap(), BlogPostStatus::Published);
    assert_eq!(parse_status("unlisted").unwrap(), BlogPostStatus::Unlisted);
}

#[test]
fn unknown_status_is_an_error() {
    assert!(matches!(
        parse_status("archived"),
        Err(ParseError::InvalidStatus { token }) if token == "archived"
    ));
    assert!(matches!(
        parse_status(""),
        Err(ParseError::InvalidStatus { token }) if token == ""
    ));
    assert!(matches!(
        BlogPostMetadata::decode("title: T\nauthor: A\nstatus: Secret\n", false),
        Err(ParseError::InvalidStatus { token }) if token == "Secret"
    ));
}

#[test]
fn tag_splitting() {
    assert_eq!(
        split_tags("rust, systems , parsing"),
        vec!["rust", "systems", "parsing"]
    );
}

#[test]
fn empty_tags_are_kept() {
    assert_eq!(split_tags("a,,b"), vec!["a", "", "b"]);
    assert_eq!(split_tags("a, ,b,"), vec!["a", "", "b", ""]);
    assert_eq!(split_tags(""), vec![""]);
    assert_eq!(split_tags("  solo  "), vec!["solo"]);
}

#[test]
fn tags_key_without_value_and_absent_tags_key() {
    let with_key = BlogPostMetadata::decode("title: T\nauthor: A\ntags:\n", false).unwrap();
    assert_eq!(with_key.tags, vec![""]);
    let without = BlogPostMetadata::decode("title: T\nauthor: A\n", false).unwrap();
    assert!(without.tags.is_empty());
}

#[test]
fn missing_title_or_author_is_an_error() {
    assert!(matches!(
        BlogPostMetadata::decode("author: A\n", false),
        Err(ParseError::MissingRequiredField { field }) if field == "title"
    ));
    assert!(matches!(
        BlogPostMetadata::decode("title: T\n", false),
        Err(ParseError::MissingRequiredField { field }) if field == "author"
    ));
    assert!(matches!(
        BlogPostMetadata::decode("", false),
        Err(ParseError::MissingRequiredField { field }) if field == "title"
    ));
}

#[test]
fn invalid_date_is_an_error() {
    assert!(matches!(
        BlogPostMetadata::decode("title: T\nauthor: A\ndate: 2023-08-29\n", false),
        Err(ParseError::InvalidDate { literal }) if literal == "2023-08-29"
    ));
    assert!(matches!(
        BlogPostMetadata::decode("title: T\nauthor: A\ndate: soon\nstatus: draft\n", false),
        Err(ParseError::InvalidDate { literal }) if literal == "soon"
    ));
}

#[test]
fn the_status_is_read_first() {
    assert!(matches!(
        BlogPostMetadata::decode("title: T\nauthor: A\ndate: soon\nstatus: nope\n", false),
        Err(ParseError::InvalidStatus { token }) if token == "nope"
    ));
    assert!(matches!(
        BlogPostMetadata::decode("status: bogus\n", false),
        Err(ParseError::InvalidStatus { token }) if token == "bogus"
    ));
    assert!(matches!(
        BlogPostMetadata::decode("title: T\nstatus: bogus\n", false),
        Err(ParseError::InvalidStatus { token }) if token == "bogus"
    ));
    assert!(matches!(
        BlogPostMetadata::decode("status: Draft\nauthor: A\n", false),
        Err(ParseError::MissingRequiredField { field }) if field == "title"
    ));
    assert!(matches!(
        BlogPostMetadata::decode("status: test\ntitle: T\ndate: soon\n", false),
        Err(ParseError::MissingRequiredField { field }) if field == "author"
    ));
    let mut fields = Fields::new();
    fields.insert("status", "bogus");
    assert!(matches!(
        BlogPostMetadata::from_fields(&fields, false),
        Err(ParseError::InvalidStatus { token }) if token == "bogus"
    ));
}

#[test]
fn a_line_without_a_colon_is_an_error() {
    assert!(matches!(
        BlogPostMetadata::decode("title: T\nauthor: A\njust words\n", false),
        Err(ParseError::MalformedFrontmatter)
    ));
    assert!(matches!(
        Fields::parse("no colon here"),
        Err(ParseError::MalformedFrontmatter)
    ));
}

#[test]
fn fields_are_split_at_the_first_colon() {
    let fields = Fields::parse("  Title :  a: b  \n\n   \nURL: https://x.y/z\n").unwrap();
    assert_eq!(fields.entries.len(), 2);
    assert_eq!(fields.get("title"), Some("a: b".to_string()));
    assert_eq!(fields.get("url"), Some("https://x.y/z".to_string()));
    assert_eq!(fields.get("Title"), None);
    assert_eq!(fields.get("missing"), None);
}

#[test]
fn a_later_pair_wins() {
    let fields = Fields::parse("title: first\ntitle: second\n").unwrap();
    assert_eq!(fields.get("title"), Some("second".to_string()));
    let mut built = Fields::new();
    built.insert("k", "1");
    built.insert("k", "2");
    assert_eq!(built.get("k"), Some("2".to_string()));
}

#[test]
fn keys_and_values_may_be_empty() {
    let fields = Fields::parse(": value\nkey:\n").unwrap();
    assert_eq!(fields.get(""), Some("value".to_string()));
    assert_eq!(fields.get("key"), Some("".to_string()));
}

#[test]
fn metadata_equality_and_copies() {
    let a = BlogPostMetadata::decode(FULL, false).unwrap();
    let b = a.duplicate();
    assert!(a.same(&b));
    let mut c = a.duplicate();
    c.tags.push("more".to_string());
    assert!(!a.same(&c));
    let mut d = a.duplicate();
    d.cover = Some(Cover::Attributes(Fields::parse("src: x\nalt: y\n").unwrap()));
    assert!(!a.same(&d));
    assert!(d.same(&d.duplicate()));
}
