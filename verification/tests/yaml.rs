use pocky::blog_post::BlogPost;
use pocky::canonical::canonical_url;
use pocky::date::Date;
use pocky::error::BuildError;
use pocky::error::ParseError;
use pocky::fields::Fields;
use pocky::metadata::BlogPostMetadata;
use pocky::metadata::Cover;
use pocky::record::FieldValue;
use pocky::record::Record;
use pocky::page::MarkdownPage;
use pocky::page::Syntax;
use pocky::page::TextPage;
use pocky::talk::Talk;

#[test]
fn yaml_front_matter_is_read() {
    let page = MarkdownPage::parse_as(
        "
---
title: Cool video games
---
# Hello, friend!"
            .to_string(),
        Syntax::Yaml,
    )
    .unwrap();

    assert_eq!(
        page.metadata.unwrap().get("title"),
        Some("Cool video games".to_string())
    );
    assert_eq!(page.content, "<h1>Hello, friend!</h1>\n");
}

#[test]
fn yaml_keys_come_in_their_order() {
    let record = Record::from_yaml("title: \"Quoted: value\"\nauthor: 'A'\ndate: 2023.8.29\n").unwrap();
    let keys: Vec<&str> = record.entries.iter().map(|e| e.0.as_str()).collect();
    assert_eq!(keys, vec!["author", "date", "title"]);
    assert_eq!(record.get("title"), Some("Quoted: value".to_string()));
    assert_eq!(record.get("author"), Some("A".to_string()));
    assert_eq!(record.get("date"), Some("2023.8.29".to_string()));
}

#[test]
fn yaml_keys_are_taken_as_written() {
    let record = Record::from_yaml("Title: x\n").unwrap();
    assert_eq!(record.get("Title"), Some("x".to_string()));
    assert_eq!(record.get("title"), None);
}

#[test]
fn yaml_scalars_are_texts() {
    let record = Record::from_yaml("n: 2023\nb: true\nmulti: |\n  one\n  two\nempty: ''\n").unwrap();
    assert_eq!(record.get("n"), Some("2023".to_string()));
    assert_eq!(record.get("b"), Some("true".to_string()));
    assert_eq!(record.get("multi"), Some("one\ntwo\n".to_string()));
    assert_eq!(record.get("empty"), Some("".to_string()));
}

#[test]
fn yaml_scalars_come_out_as_yaml_reads_them() {
    let record = Record::from_yaml(
        "hex: 0x10\ntruth: True\nfloat: 2023.10\ndate: 2023.8.29\nquoted: '0x10'\nkept: \"True\"\n",
    )
    .unwrap();
    assert_eq!(record.get("hex"), Some("16".to_string()));
    assert_eq!(record.get("truth"), Some("true".to_string()));
    assert_eq!(record.get("float"), Some("2023.1".to_string()));
    assert_eq!(record.get("date"), Some("2023.8.29".to_string()));
    assert_eq!(record.get("quoted"), Some("0x10".to_string()));
    assert_eq!(record.get("kept"), Some("True".to_string()));
}

#[test]
fn a_null_title_is_a_missing_title() {
    assert!(matches!(
        BlogPost::parse("p.md", "---\ntitle: ~\nauthor: A\n---\n".to_string()),
        Err(BuildError::Parse { path, error: ParseError::MissingRequiredField { field } })
            if path == "p.md" && field == "title"
    ));
    let post = BlogPost::parse("p.md", "---\ntitle: 0x10\nauthor: True\n---\n".to_string()).unwrap();
    assert_eq!(post.metadata.title, "16");
    assert_eq!(post.metadata.author, "true");
}

#[test]
fn parse_reads_yaml() {
    let raw = "---\ntitle: \"Quoted: value\" # a comment\nauthor: A\ncover:\n  src: x\n---\nBody\n";
    let page = MarkdownPage::parse(raw.to_string()).unwrap();
    let record = page.metadata.unwrap();
    assert_eq!(record.get("title"), Some("Quoted: value".to_string()));
    assert!(record.has_mapping("cover"));
    let text = TextPage::parse(raw.to_string()).unwrap();
    assert_eq!(text.metadata.unwrap().get("author"), Some("A".to_string()));
    assert_eq!(text.content, "Body\n");
    let post = BlogPost::parse("p.md", raw.to_string()).unwrap();
    assert_eq!(post.metadata.title, "Quoted: value");
    assert!(matches!(post.metadata.cover, Some(Cover::Attributes(_))));
    let lines = MarkdownPage::parse_as(
        "---\ntitle: \"Quoted: value\"\n---\nBody\n".to_string(),
        Syntax::Lines,
    )
    .unwrap();
    assert_eq!(
        lines.metadata.unwrap().get("title"),
        Some("\"Quoted: value\"".to_string())
    );
}

#[test]
fn yaml_nulls_have_no_value() {
    let record = Record::from_yaml("title: T\nhn:\nlobsters: ~\n").unwrap();
    assert_eq!(record.entries.len(), 1);
    assert_eq!(record.get("hn"), None);
    assert!(record.value("lobsters").is_none());
    assert!(Record::from_yaml("").unwrap().entries.is_empty());
}

#[test]
fn yaml_mappings_are_attributes() {
    let record = Record::from_yaml("cover:\n  src: x\n  alt: y\n  width: 100\ntitle: T\n").unwrap();
    assert!(record.has_mapping("cover"));
    assert!(!record.has_mapping("title"));
    assert!(!record.has_mapping("absent"));
    assert_eq!(record.get("cover"), None);
    match record.value("cover") {
        Some(FieldValue::Attributes(attributes)) => {
            assert_eq!(attributes.get("src"), Some("x".to_string()));
            assert_eq!(attributes.get("alt"), Some("y".to_string()));
            assert_eq!(attributes.get("width"), Some("100".to_string()));
            assert_eq!(attributes.entries.len(), 3);
        }
        other => panic!("cover is {:?}", other),
    }
}

#[test]
fn yaml_that_is_no_mapping_is_malformed() {
    assert!(matches!(
        Record::from_yaml("- a\n- b\n"),
        Err(ParseError::MalformedFrontmatter)
    ));
    assert!(matches!(
        Record::from_yaml("title: [unclosed\n"),
        Err(ParseError::MalformedFrontmatter)
    ));
    assert!(matches!(
        Record::from_yaml("tags:\n  - a\n  - b\n"),
        Err(ParseError::MalformedFrontmatter)
    ));
    assert!(matches!(
        Record::from_yaml("cover:\n  src:\n    deep: x\n"),
        Err(ParseError::MalformedFrontmatter)
    ));
    assert!(matches!(
        TextPage::parse_as("---\n- a\n---\nbody".to_string(), Syntax::Yaml),
        Err(ParseError::MalformedFrontmatter)
    ));
}

#[test]
fn cover_mapping_decodes_to_attributes() {
    let raw = "---\ntitle: T\nauthor: A\ncover:\n  src: x\n  alt: y\n---\nBody\n";
    let post = BlogPost::parse_as("posts/p.md", raw.to_string(), Syntax::Yaml).unwrap();
    match &post.metadata.cover {
        Some(Cover::Attributes(attributes)) => {
            assert_eq!(attributes.get("src"), Some("x".to_string()));
            assert_eq!(attributes.get("alt"), Some("y".to_string()));
            assert_eq!(attributes.entries.len(), 2);
        }
        other => panic!("cover is {:?}", other),
    }
    let talk_raw = "---\ntitle: T\nauthor: A\ndate: 2023.9.16\ncover:\n  src: z\n---\none\n";
    let talk = Talk::parse_as("talks/t.txt", talk_raw.to_string(), Syntax::Yaml).unwrap();
    assert!(matches!(
        &talk.metadata.cover,
        Some(Cover::Attributes(attributes)) if attributes.get("src") == Some("z".to_string())
    ));
}

#[test]
fn cover_text_decodes_to_an_address() {
    let raw = "---\ntitle: T\nauthor: A\ncover: https://example.com/c.png\n---\nBody\n";
    let post = BlogPost::parse_as("posts/p.md", raw.to_string(), Syntax::Yaml).unwrap();
    assert!(matches!(
        &post.metadata.cover,
        Some(Cover::Url(address)) if address == "https://example.com/c.png"
    ));
}

#[test]
fn cover_attributes_name_the_address_src() {
    let from_address = Cover::Url("https://example.com/c.png".to_string()).attributes();
    assert_eq!(from_address.entries.len(), 1);
    assert_eq!(
        from_address.get("src"),
        Some("https://example.com/c.png".to_string())
    );
    let given = Cover::Attributes(Fields::parse("src: x\nalt: y\n").unwrap()).attributes();
    assert_eq!(given.entries.len(), 2);
    assert_eq!(given.get("alt"), Some("y".to_string()));
}

#[test]
fn a_mapping_where_a_text_belongs_is_malformed() {
    for key in ["title", "author", "date", "status", "summary", "tags", "accent_color", "hn", "lobsters"] {
        let mut record = Record::from_yaml("title: T\nauthor: A\n").unwrap();
        record.insert(key, FieldValue::Attributes(Fields::parse("a: b\n").unwrap()));
        assert!(matches!(
            BlogPostMetadata::from_record(&record, false),
            Err(ParseError::MalformedFrontmatter)
        ));
    }
    assert!(matches!(
        BlogPost::parse_as(
            "p.md",
            "---\ntitle:\n  a: b\nauthor: A\n---\n".to_string(),
            Syntax::Yaml
        ),
        Err(BuildError::Parse { path, error: ParseError::MalformedFrontmatter }) if path == "p.md"
    ));
    assert!(matches!(
        Talk::parse_as(
            "t.txt",
            "---\ntitle: T\nauthor: A\ndate: 2023.1.1\ntags:\n  a: b\n---\n".to_string(),
            Syntax::Yaml
        ),
        Err(BuildError::Parse { path, error: ParseError::MalformedFrontmatter }) if path == "t.txt"
    ));
}

#[test]
fn text_pairs_decode_as_a_record_of_texts() {
    let fields = Fields::parse("title: T\nauthor: A\ncover: c.png\n").unwrap();
    let from_pairs = BlogPostMetadata::from_fields(&fields, false).unwrap();
    let record = Record::from_fields(fields);
    assert_eq!(record.entries.len(), 3);
    assert!(matches!(record.value("cover"), Some(FieldValue::Text(t)) if t == "c.png"));
    let from_record = BlogPostMetadata::from_record(&record, false).unwrap();
    assert!(from_pairs.same(&from_record));
    assert!(matches!(from_pairs.cover, Some(Cover::Url(ref u)) if u == "c.png"));
}

#[test]
fn post_with_yaml_front_matter() {
    let raw = "---\ntitle: \"Hello: again\"\nauthor: McKayla\ndate: 2023.6.15\ntags: a, b\n---\nBody\n";
    let post = BlogPost::parse_as("content/posts/hello.md", raw.to_string(), Syntax::Yaml).unwrap();
    assert_eq!(post.metadata.title, "Hello: again");
    assert_eq!(post.metadata.date, Some(Date { year: 2023, month: 6, day: 15 }));
    assert_eq!(post.metadata.tags, vec!["a", "b"]);
    assert_eq!(post.content, "<p>Body</p>\n");
    assert_eq!(post.path, "content/posts/hello.html");
    assert!(matches!(
        BlogPost::parse_as("p.md", "---\n- a\n---\n".to_string(), Syntax::Yaml),
        Err(BuildError::Parse { path, error: ParseError::MalformedFrontmatter }) if path == "p.md"
    ));
}

#[test]
fn talk_with_yaml_front_matter() {
    let raw = "---\ntitle: T\nauthor: A\ndate: 2023.9.16\n---\none\n+++\ntwo\n";
    let talk = Talk::parse_as("talks/t.txt", raw.to_string(), Syntax::Yaml).unwrap();
    assert_eq!(talk.content, vec!["<p>one</p>\n", "<p>two</p>\n"]);
    let page = TextPage::parse_as(raw.to_string(), Syntax::Yaml).unwrap();
    let again = Talk::from_page("talks/t.txt", page).unwrap();
    assert!(talk.equals(&again));
}

#[test]
fn canonical_url_joins_origin_and_path() {
    assert_eq!(
        canonical_url("https://mckayla.blog", "posts/hello.html"),
        Some("https://mckayla.blog/posts/hello.html".to_string())
    );
    assert_eq!(
        canonical_url("https://example.net/a/b.html", "c.png"),
        Some("https://example.net/a/c.png".to_string())
    );
    assert_eq!(canonical_url("not an origin", "posts/hello.html"), None);
}

#[test]
fn post_has_a_canonical_url() {
    let raw = "---\ntitle: T\nauthor: A\n---\nBody\n";
    let mut post = BlogPost::parse("content/posts/hello world.md", raw.to_string()).unwrap();
    post.strip_root("content/");
    assert_eq!(
        post.canonical_url("https://mckayla.blog"),
        Some("https://mckayla.blog/posts/hello%20world.html".to_string())
    );
    assert_eq!(post.canonical_url(""), None);
}
