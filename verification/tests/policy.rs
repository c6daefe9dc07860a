use pocky::blog_post::BlogPost;
use pocky::date::Date;
use pocky::error::BuildError;
use pocky::external::External;
use pocky::external::ExternalMetadata;
use pocky::index_entry::IndexEntry;
use pocky::metadata::BlogPostMetadata;
use pocky::metadata::BlogPostStatus;
use pocky::error::ParseError;
use pocky::page::Syntax;
use pocky::policy::listed_posts;
use pocky::policy::load_posts;
use pocky::policy::load_talks;
use pocky::policy::SourceFile;
use pocky::policy::plan_site;
use pocky::policy::publish_filter;
use pocky::talk::Talk;
use pocky::talk::TalkMetadata;

fn day(year: i32, month: u32, day: u32) -> Date {
    Date { year, month, day }
}

fn post(title: &str, date: Option<Date>, status: BlogPostStatus) -> BlogPost {
    BlogPost {
        path: format!("posts/{}.html", title),
        root_stripped: true,
        metadata: BlogPostMetadata {
            title: title.to_string(),
            author: "McKayla".to_string(),
            date,
            summary: None,
            tags: Vec::new(),
            cover: None,
            accent_color: None,
            status,
            hn: None,
            lobsters: None,
        },
        content: format!("<p>{}</p>\n", title),
    }
}

fn talk(title: &str, date: Date) -> Talk {
    Talk {
        path: format!("talks/{}.html", title),
        root_stripped: true,
        metadata: TalkMetadata {
            title: title.to_string(),
            author: "McKayla".to_string(),
            date,
            summary: None,
            tags: Vec::new(),
            cover: None,
            accent_color: None,
        },
        content: vec!["<p>one</p>\n".to_string()],
    }
}

fn external(title: &str, date: Date) -> External {
    External {
        canonical_url: format!("https://example.com/{}", title),
        path: format!("https://example.com/{}", title),
        metadata: ExternalMetadata {
            title: title.to_string(),
            author: "Someone".to_string(),
            date,
            summary: None,
            tags: Vec::new(),
        },
    }
}

fn titles(posts: &[BlogPost]) -> Vec<String> {
    posts.iter().map(|p| p.metadata.title.clone()).collect()
}

fn index_titles(index: &[IndexEntry]) -> Vec<String> {
    index
        .iter()
        .map(|entry| match entry {
            IndexEntry::BlogPost(p) => p.metadata.title.clone(),
            IndexEntry::Talk(t) => t.metadata.title.clone(),
            IndexEntry::External(e) => e.metadata.title.clone(),
        })
        .collect()
}

fn sample() -> Vec<BlogPost> {
    vec![
        post("draft", Some(day(2023, 1, 1)), BlogPostStatus::Draft),
        post("published", Some(day(2023, 2, 1)), BlogPostStatus::Published),
        post("test", None, BlogPostStatus::Test),
        post("unlisted", Some(day(2023, 3, 1)), BlogPostStatus::Unlisted),
    ]
}

#[test]
fn publish_filter_drops_drafts_and_tests() {
    let preview = publish_filter(sample(), false).unwrap();
    assert_eq!(titles(&preview), vec!["draft", "published", "test", "unlisted"]);
    let publishing = publish_filter(sample(), true).unwrap();
    assert_eq!(titles(&publishing), vec!["published", "unlisted"]);
}

#[test]
fn publish_invariant() {
    let undated = || vec![
        post("dated", Some(day(2023, 2, 1)), BlogPostStatus::Published),
        post("undated", None, BlogPostStatus::Published),
        post("also undated", None, BlogPostStatus::Unlisted),
    ];
    assert!(matches!(
        publish_filter(undated(), true),
        Err(BuildError::PublishInvariantViolation { path }) if path == "posts/undated.html"
    ));
    assert_eq!(publish_filter(undated(), false).unwrap().len(), 3);
    assert!(matches!(
        plan_site(undated(), Vec::new(), Vec::new(), true),
        Err(BuildError::PublishInvariantViolation { path }) if path == "posts/undated.html"
    ));
    assert!(plan_site(undated(), Vec::new(), Vec::new(), false).is_ok());
}

#[test]
fn undated_drafts_do_not_fail_publishing() {
    let posts = vec![
        post("draft", None, BlogPostStatus::Draft),
        post("test", None, BlogPostStatus::Test),
    ];
    assert!(publish_filter(posts, true).unwrap().is_empty());
}

#[test]
fn unlisted_posts_are_not_listed() {
    assert_eq!(
        titles(&listed_posts(sample())),
        vec!["draft", "published", "test"]
    );
}

#[test]
fn unlisted_visibility() {
    let plan = plan_site(
        sample(),
        vec![talk("talk", day(2023, 2, 15))],
        vec![external("link", day(2023, 4, 1))],
        true,
    )
    .unwrap();
    assert_eq!(titles(&plan.posts), vec!["unlisted", "published"]);
    assert_eq!(titles(&plan.feed), vec!["published"]);
    assert_eq!(index_titles(&plan.index), vec!["link", "talk", "published"]);
    assert_eq!(plan.talks.len(), 1);
}

#[test]
fn preview_build_shows_drafts() {
    let plan = plan_site(
        sample(),
        vec![talk("talk", day(2023, 2, 15))],
        vec![external("link", day(2023, 4, 1))],
        false,
    )
    .unwrap();
    assert_eq!(
        titles(&plan.posts),
        vec!["unlisted", "published", "draft", "test"]
    );
    assert_eq!(titles(&plan.feed), vec!["published", "draft", "test"]);
    assert_eq!(
        index_titles(&plan.index),
        vec!["link", "talk", "published", "draft", "test"]
    );
}

#[test]
fn empty_site() {
    let plan = plan_site(Vec::new(), Vec::new(), Vec::new(), true).unwrap();
    assert!(plan.posts.is_empty());
    assert!(plan.talks.is_empty());
    assert!(plan.index.is_empty());
    assert!(plan.feed.is_empty());
}

fn file(path: &str, content: &str) -> SourceFile {
    SourceFile {
        path: path.to_string(),
        content: content.to_string(),
    }
}

#[test]
fn loading_reads_every_file_in_order() {
    let posts = load_posts(
        vec![
            file("posts/b.md", "---\ntitle: B\nauthor: A\n---\nb\n"),
            file("posts/a.md", "---\ntitle: A\nauthor: A\ndate: 2023.1.1\n---\na\n"),
        ],
        Syntax::Lines,
    )
    .unwrap();
    assert_eq!(titles(&posts), vec!["B", "A"]);
    assert_eq!(posts[0].path, "posts/b.html");
    assert_eq!(posts[1].content, "<p>a</p>\n");
    assert!(load_posts(Vec::new(), Syntax::Yaml).unwrap().is_empty());
}

#[test]
fn loading_fails_with_the_first_bad_file() {
    let files = || {
        vec![
            file("good.md", "---\ntitle: B\nauthor: A\n---\nb\n"),
            file("no-author.md", "---\ntitle: B\n---\nb\n"),
            file("open.md", "---\ntitle: B\n"),
        ]
    };
    assert!(matches!(
        load_posts(files(), Syntax::Lines),
        Err(BuildError::Parse { path, error: ParseError::MissingRequiredField { field } })
            if path == "no-author.md" && field == "author"
    ));
    assert!(matches!(
        load_talks(files(), Syntax::Yaml),
        Err(BuildError::Parse { path, error: ParseError::MissingRequiredField { field } })
            if path == "good.md" && field == "date"
    ));
}

#[test]
fn loading_talks() {
    let talks = load_talks(
        vec![file("talks/t.txt", "---\ntitle: T\nauthor: A\ndate: 2023.9.16\n---\none\n+++\ntwo\n")],
        Syntax::Lines,
    )
    .unwrap();
    assert_eq!(talks.len(), 1);
    assert_eq!(talks[0].content.len(), 2);
}
