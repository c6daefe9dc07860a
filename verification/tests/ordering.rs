use pocky::blog_post::BlogPost;
use pocky::date::Date;
use pocky::external::External;
use pocky::external::ExternalMetadata;
use pocky::index_entry::assemble;
use pocky::index_entry::IndexEntry;
use pocky::metadata::BlogPostMetadata;
use pocky::metadata::BlogPostStatus;
use pocky::ordered::insert_page;
use pocky::ordered::order_pages;
use pocky::ordered::OrderedPageCollection;
use pocky::talk::Talk;
use pocky::talk::TalkMetadata;

fn day(year: i32, month: u32, day: u32) -> Date {
    Date { year, month, day }
}

fn post(title: &str, date: Option<Date>) -> BlogPost {
    BlogPost {
        path: format!("posts/{}.html", title),
        root_stripped: true,
        metadata: BlogPostMetadata {
            title: title.to_string(),
            author: "McKayla".to_string(),
            date,
            summary: None,
            tags: Vec::new(),
            cover: None,
            accent_color: None,
            status: BlogPostStatus::Published,
            hn: None,
            lobsters: None,
        },
        content: format!("<p>{}</p>\n", title),
    }
}

fn talk(title: &str, date: Date) -> Talk {
    Talk {
        path: format!("talks/{}.html", title),
        root_stripped: true,
        metadata: TalkMetadata {
            title: title.to_string(),
            author: "McKayla".to_string(),
            date,
            summary: None,
            tags: Vec::new(),
            cover: None,
            accent_color: None,
        },
        content: vec!["<p>one</p>\n".to_string()],
    }
}

fn external(title: &str, date: Date) -> External {
    External {
        canonical_url: format!("https://example.com/{}", title),
        path: format!("https://example.com/{}", title),
        metadata: ExternalMetadata {
            title: title.to_string(),
            author: "Someone".to_string(),
            date,
            summary: None,
            tags: Vec::new(),
        },
    }
}

fn titles(posts: &[BlogPost]) -> Vec<String> {
    posts.iter().map(|p| p.metadata.title.clone()).collect()
}

fn entry_title(entry: &IndexEntry) -> String {
    match entry {
        IndexEntry::BlogPost(p) => p.metadata.title.clone(),
        IndexEntry::Talk(t) => t.metadata.title.clone(),
        IndexEntry::External(e) => e.metadata.title.clone(),
    }
}

#[test]
fn ordering_is_newest_first() {
    let ordered = order_pages(vec![
        post("january", Some(day(2023, 1, 1))),
        post("june", Some(day(2023, 6, 15))),
        post("december", Some(day(2022, 12, 31))),
    ]);
    assert_eq!(titles(&ordered), vec!["june", "january", "december"]);
    let dates: Vec<Option<Date>> = ordered.iter().map(|p| p.metadata.date).collect();
    assert_eq!(
        dates,
        vec![
            Some(day(2023, 6, 15)),
            Some(day(2023, 1, 1)),
            Some(day(2022, 12, 31))
        ]
    );
}

#[test]
fn undated_posts_come_last() {
    let ordered = order_pages(vec![
        post("undated", None),
        post("old", Some(day(1999, 1, 1))),
        post("also undated", None),
        post("new", Some(day(2024, 1, 1))),
    ]);
    assert_eq!(
        titles(&ordered),
        vec!["new", "old", "undated", "also undated"]
    );
}

#[test]
fn posts_of_one_date_keep_their_order() {
    let same = Some(day(2023, 5, 5));
    let ordered = order_pages(vec![
        post("b", same),
        post("a", same),
        post("later", Some(day(2023, 5, 6))),
        post("c", same),
    ]);
    assert_eq!(titles(&ordered), vec!["later", "b", "a", "c"]);
}

#[test]
fn equal_posts_collapse_to_one() {
    let same = Some(day(2023, 5, 5));
    let ordered = order_pages(vec![post("a", same), post("b", same), post("a", same)]);
    assert_eq!(titles(&ordered), vec!["a", "b"]);
    let mut almost = post("a", same);
    almost.content.push('!');
    let ordered = order_pages(vec![post("a", same), almost]);
    assert_eq!(ordered.len(), 2);
}

#[test]
fn insert_page_puts_a_page_in_its_place() {
    let mut pages = order_pages(vec![
        post("new", Some(day(2024, 1, 1))),
        post("old", Some(day(2020, 1, 1))),
    ]);
    insert_page(&mut pages, post("middle", Some(day(2022, 1, 1))));
    insert_page(&mut pages, post("newest", Some(day(2025, 1, 1))));
    insert_page(&mut pages, post("oldest", None));
    insert_page(&mut pages, post("middle", Some(day(2022, 1, 1))));
    assert_eq!(
        titles(&pages),
        vec!["newest", "new", "middle", "old", "oldest"]
    );
}

#[test]
fn index_distinctness() {
    let same = Some(day(2023, 8, 29));
    let index = assemble(
        vec![post("first", same), post("second", same)],
        Vec::new(),
        Vec::new(),
    );
    let names: Vec<String> = index.iter().map(entry_title).collect();
    assert_eq!(names, vec!["first", "second"]);
}

#[test]
fn index_mixes_posts_talks_and_links() {
    let index = assemble(
        vec![
            post("post 2023", Some(day(2023, 3, 1))),
            post("undated post", None),
            post("post 2021", Some(day(2021, 3, 1))),
        ],
        vec![talk("talk 2022", day(2022, 3, 1)), talk("talk 2023", day(2023, 3, 1))],
        vec![
            external("link 2024", day(2024, 3, 1)),
            external("link 2023", day(2023, 3, 1)),
        ],
    );
    let names: Vec<String> = index.iter().map(entry_title).collect();
    assert_eq!(
        names,
        vec![
            "link 2024",
            "post 2023",
            "talk 2023",
            "link 2023",
            "talk 2022",
            "post 2021",
            "undated post"
        ]
    );
    assert_eq!(index[0].sort_criteria(), Some(day(2024, 3, 1)));
    assert_eq!(index[6].sort_criteria(), None);
}

#[test]
fn index_collapses_equal_entries_only() {
    let d = day(2023, 3, 1);
    let index = assemble(
        vec![post("same", Some(d)), post("same", Some(d))],
        vec![talk("same", d), talk("same", d)],
        vec![external("same", d), external("same", d)],
    );
    assert_eq!(index.len(), 3);
    assert!(matches!(index[0], IndexEntry::BlogPost(_)));
    assert!(matches!(index[1], IndexEntry::Talk(_)));
    assert!(matches!(index[2], IndexEntry::External(_)));
    assert!(index[0].equals(&IndexEntry::BlogPost(post("same", Some(d)))));
    assert!(!index[0].equals(&index[1]));
    assert!(external("same", d).equals(&external("same", d).duplicate()));
}

#[test]
fn ordered_collection_lists_and_retains() {
    let mut collection = OrderedPageCollection::from_pages(vec![
        post("a", Some(day(2023, 1, 1))),
        post("b", Some(day(2023, 6, 15))),
        post("c", Some(day(2022, 12, 31))),
        post("b", Some(day(2023, 6, 15))),
    ]);
    let seen: Vec<String> = collection.iter().map(|p| p.metadata.title.clone()).collect();
    assert_eq!(seen, vec!["b", "a", "c"]);
    collection.retain(|p: &BlogPost| p.metadata.title != "a");
    assert_eq!(titles(&collection.into_set()), vec!["b", "c"]);
}
