use pocky::blog_post::BlogPost;
use pocky::error::BuildError;
use pocky::error::ParseError;
use pocky::page::AsHtml;
use pocky::path::html_path;
use pocky::talk::render_sections;
use pocky::talk::Talk;
use pocky::date::Date;
use pocky::metadata::BlogPostStatus;

#[test]
fn html_path_replaces_the_extension() {
    assert_eq!(html_path("content/posts/foo.md"), "content/posts/foo.html");
    assert_eq!(html_path("foo.md"), "foo.html");
    assert_eq!(html_path("foo.tar.gz"), "foo.tar.html");
    assert_eq!(html_path("foo.html"), "foo.html");
    assert_eq!(html_path("foo."), "foo.html");
}

#[test]
fn html_path_adds_a_missing_extension() {
    assert_eq!(html_path("foo"), "foo.html");
    assert_eq!(html_path("a.b/c"), "a.b/c.html");
    assert_eq!(html_path(".hidden"), ".hidden.html");
    assert_eq!(html_path("dir/.hidden"), "dir/.hidden.html");
}

#[test]
fn html_path_leaves_paths_without_a_file_name() {
    assert_eq!(html_path(""), "");
    assert_eq!(html_path("dir/"), "dir/");
    assert_eq!(html_path("."), ".");
    assert_eq!(html_path(".."), "..");
    assert_eq!(html_path("a/.."), "a/..");
}

const POST: &str = "---
title: Hello
author: McKayla
date: 2023.6.15
summary: A *short* one
status: draft
---
# Hello, friend!
";

#[test]
fn post_is_read_from_a_document() {
    let post = BlogPost::parse("content/posts/hello.md", POST.to_string()).unwrap();
    assert_eq!(post.path, "content/posts/hello.html");
    assert!(!post.root_stripped);
    assert_eq!(post.metadata.title, "Hello");
    assert_eq!(post.metadata.date, Some(Date { year: 2023, month: 6, day: 15 }));
    assert_eq!(post.metadata.status, BlogPostStatus::Draft);
    assert_eq!(
        post.metadata.summary,
        Some("<p>A <em>short</em> one</p>\n".to_string())
    );
    assert_eq!(post.content, "<h1>Hello, friend!</h1>\n");
    assert_eq!(post.as_html(), "<h1>Hello, friend!</h1>\n");
    assert!(post.equals(&post.duplicate()));
}

#[test]
fn post_errors_name_the_file() {
    assert!(matches!(
        BlogPost::parse("posts/a.md", "# no front matter\n".to_string()),
        Err(BuildError::Parse { path, error: ParseError::MissingRequiredField { field } })
            if path == "posts/a.md" && field == "title"
    ));
    assert!(matches!(
        BlogPost::parse("posts/b.md", "---\ntitle: x\n".to_string()),
        Err(BuildError::Parse { path, error: ParseError::MalformedFrontmatter })
            if path == "posts/b.md"
    ));
    assert!(matches!(
        BlogPost::parse("posts/c.md", "---\ntitle: x\nauthor: y\ndate: 1.2\n---\n".to_string()),
        Err(BuildError::Parse { path, error: ParseError::InvalidDate { literal } })
            if path == "posts/c.md" && literal == "1.2"
    ));
    assert!(matches!(
        BlogPost::parse("posts/d.md", "---\ntitle: x\nauthor: y\nstatus: z\n---\n".to_string()),
        Err(BuildError::Parse { path, error: ParseError::InvalidStatus { token } })
            if path == "posts/d.md" && token == "z"
    ));
}

#[test]
fn strip_root_is_idempotent() {
    let mut post = BlogPost::parse("content/content/posts/hello.md", POST.to_string()).unwrap();
    post.strip_root("content/");
    assert_eq!(post.path, "content/posts/hello.html");
    assert!(post.root_stripped);
    post.strip_root("content/");
    assert_eq!(post.path, "content/posts/hello.html");
    assert!(post.root_stripped);
    assert_eq!(post.metadata.title, "Hello");
}

#[test]
fn strip_root_leaves_other_paths() {
    let mut post = BlogPost::parse("drafts/hello.md", POST.to_string()).unwrap();
    post.strip_root("content/");
    assert_eq!(post.path, "drafts/hello.html");
    assert!(!post.root_stripped);
    post.strip_root("");
    assert_eq!(post.path, "drafts/hello.html");
    assert!(post.root_stripped);
}

const TALK: &str = "---
title: A talk
author: McKayla
date: 2023.9.16
tags: rust, talks
---
# One
+++
# Two
+++
";

#[test]
fn talk_is_read_in_sections() {
    let mut talk = Talk::parse("content/talks/a.txt", TALK.to_string()).unwrap();
    assert_eq!(talk.path, "content/talks/a.html");
    assert_eq!(talk.metadata.date, Date { year: 2023, month: 9, day: 16 });
    assert_eq!(talk.metadata.tags, vec!["rust", "talks"]);
    assert_eq!(talk.content, vec!["<h1>One</h1>\n", "<h1>Two</h1>\n", ""]);
    assert_eq!(talk.as_html(), "<h1>One</h1>\n<h1>Two</h1>\n");
    talk.strip_root("content/");
    talk.strip_root("content/");
    assert_eq!(talk.path, "talks/a.html");
    assert!(talk.equals(&talk.duplicate()));
}

#[test]
fn talk_needs_a_date() {
    assert!(matches!(
        Talk::parse("t.txt", "---\ntitle: x\nauthor: y\n---\n".to_string()),
        Err(BuildError::Parse { path, error: ParseError::MissingRequiredField { field } })
            if path == "t.txt" && field == "date"
    ));
    assert!(Talk::parse("t.txt", "---\ntitle: x\nauthor: y\ndate: 2023.1.1\nstatus: odd\n---\n".to_string()).is_ok());
}

#[test]
fn sections_are_split_at_the_break() {
    assert_eq!(render_sections(""), vec![""]);
    assert_eq!(render_sections("a\n"), vec!["<p>a</p>\n"]);
    assert_eq!(
        render_sections("a\n+++\nb\n"),
        vec!["<p>a</p>\n", "<p>b</p>\n"]
    );
    assert_eq!(render_sections("+++\n"), vec!["", ""]);
    for body in ["", "a\n", "a\n+++\nb\n", "+++\n+++\n", "x+++\ny", "++++\n+\n"] {
        let expected: Vec<String> = body
            .split("+++\n")
            .map(|s| pocky::markdown::markdown_to_html(s))
            .collect();
        assert_eq!(render_sections(body), expected);
    }
}
