use pocky::page::AsHtml;
use pocky::page::HtmlPage;
use pocky::page::MarkdownPage;
use pocky::page::PageCollection;
use pocky::page::TextPage;

#[test]
fn from_string() {
    let page = HtmlPage::new("<h1>Hello, friend!</h1>".to_string());

    assert_eq!(page.content, "<h1>Hello, friend!</h1>");
    assert_eq!(page.as_html(), "<h1>Hello, friend!</h1>");
}

#[test]
fn no_frontmatter() {
    let page = MarkdownPage::parse("# Hello, friend!\n".to_string()).unwrap();

    assert!(page.metadata.is_none());
    assert_eq!(page.content, "<h1>Hello, friend!</h1>\n");
}

#[test]
fn with_frontmatter() {
    let page = MarkdownPage::parse(
        "
---
title: Cool video games
---
# Hello, friend!"
            .to_string(),
    )
    .unwrap();

    assert_eq!(
        page.metadata.unwrap().get("title"),
        Some("Cool video games".to_string())
    );
    assert_eq!(page.content, "<h1>Hello, friend!</h1>\n");
}

struct TitleMetadata {
    pub title: String,
}

#[test]
fn with_frontmatter_deserialize() {
    let page = MarkdownPage::parse(
        "
---
title: Cool video games
---
# Hello, friend!"
            .to_string(),
    )
    .unwrap();

    let metadata = page.metadata.map(|fields| TitleMetadata {
        title: fields.get("title").unwrap(),
    });
    assert_eq!(metadata.unwrap().title, "Cool video games".to_string());
    assert_eq!(page.content, "<h1>Hello, friend!</h1>\n");
}

#[test]
fn text_page_keeps_the_body_as_written() {
    let page = TextPage::parse("---\ntitle: A\n---\n# Not rendered\n".to_string()).unwrap();
    assert_eq!(page.metadata.unwrap().get("title"), Some("A".to_string()));
    assert_eq!(page.content, "# Not rendered\n");
    assert_eq!(
        TextPage::parse("plain".to_string()).unwrap().as_html(),
        "plain\n"
    );
}

#[test]
fn markdown_page_with_open_front_matter_fails() {
    assert!(MarkdownPage::parse("---\ntitle: A\n# Hello".to_string()).is_err());
    assert!(TextPage::parse("---\ntitle: A\n".to_string()).is_err());
}

#[test]
fn markdown_page_with_a_line_that_is_no_pair_fails() {
    assert!(MarkdownPage::parse("---\njust words\n---\nbody".to_string()).is_err());
}

#[test]
fn markdown_extensions_are_on() {
    let page = MarkdownPage::parse("~~gone~~\n".to_string()).unwrap();
    assert_eq!(page.as_html(), "<p><del>gone</del></p>\n");
}

#[test]
fn page_collection_keeps_order_and_retains() {
    let pages = vec![
        HtmlPage::new("a".to_string()),
        HtmlPage::new("bb".to_string()),
        HtmlPage::new("c".to_string()),
        HtmlPage::new("dd".to_string()),
    ];
    let mut collection = PageCollection::from_pages(pages);
    let seen: Vec<String> = collection.iter().map(|p| p.as_html()).collect();
    assert_eq!(seen, vec!["a", "bb", "c", "dd"]);

    collection.retain(|page: &HtmlPage| page.content.len() == 2);
    let kept: Vec<String> = collection
        .into_vec()
        .into_iter()
        .map(|p| p.content)
        .collect();
    assert_eq!(kept, vec!["bb", "dd"]);
}

#[test]
fn page_collection_retain_all_and_none() {
    let mut all = PageCollection::from_pages(vec![HtmlPage::new("a".to_string())]);
    all.retain(|_page: &HtmlPage| true);
    assert_eq!(all.into_vec().len(), 1);

    let mut none = PageCollection::from_pages(vec![HtmlPage::new("a".to_string())]);
    none.retain(|_page: &HtmlPage| false);
    assert!(none.into_vec().is_empty());
}
