//! The index of the site: posts, talks and links in one dated listing.

use vstd::prelude::*;
use crate::blog_post::{BlogPost, PostView};
use crate::date::Date;
use crate::external::{External, ExternalView};
use crate::ordered::{
    descending, distinct, law_ordered_keeps_members, models, order_pages, ordered, Entry,
};
use crate::talk::{Talk, TalkView};

verus! {

/// One line of the index: a post, a talk or a link, whole.
#[derive(Debug)]
pub enum IndexEntry {
    BlogPost(BlogPost),
    Talk(Talk),
    External(External),
}

/// The model of an `IndexEntry`.
pub enum IndexEntryView {
    BlogPost(PostView),
    Talk(TalkView),
    External(ExternalView),
}

impl View for IndexEntry {
    type V = IndexEntryView;

    open spec fn view(&self) -> IndexEntryView {
        match self {
            IndexEntry::BlogPost(post) => IndexEntryView::BlogPost(post@),
            IndexEntry::Talk(talk) => IndexEntryView::Talk(talk@),
            IndexEntry::External(external) => IndexEntryView::External(external@),
        }
    }
}

/// The date by which an entry is ranked: that of its metadata, which only a
/// post may lack.
pub open spec fn sort_date(entry: IndexEntryView) -> Option<Date> {
    match entry {
        IndexEntryView::BlogPost(post) => post.metadata.date,
        IndexEntryView::Talk(talk) => Some(talk.metadata.date),
        IndexEntryView::External(external) => Some(external.metadata.date),
    }
}

impl IndexEntry {
    /// The date by which the entry is ranked.
    pub fn sort_criteria(&self) -> (d: Option<Date>)
        ensures
            d == sort_date(self@),
    {
        match self {
            IndexEntry::BlogPost(post) => post.metadata.date,
            IndexEntry::Talk(talk) => Some(talk.metadata.date),
            IndexEntry::External(external) => Some(external.metadata.date),
        }
    }

    /// Tells whether two entries are of the same kind and equal in every
    /// field.
    pub fn equals(&self, other: &IndexEntry) -> (r: bool)
        ensures
            r == (self@ == other@),
    {
        match (self, other) {
            (IndexEntry::BlogPost(a), IndexEntry::BlogPost(b)) => a.equals(b),
            (IndexEntry::Talk(a), IndexEntry::Talk(b)) => a.equals(b),
            (IndexEntry::External(a), IndexEntry::External(b)) => a.equals(b),
            _ => false,
        }
    }
}

impl Entry for IndexEntry {
    open spec fn date_of(model: IndexEntryView) -> Option<Date> {
        sort_date(model)
    }

    fn date(&self) -> (d: Option<Date>) {
        self.sort_criteria()
    }

    fn same(&self, other: &Self) -> (b: bool) {
        self.equals(other)
    }
}

/// The entries for the given posts, talks and links, in this order.
pub open spec fn entries_of(
    posts: Seq<PostView>,
    talks: Seq<TalkView>,
    externals: Seq<ExternalView>,
) -> Seq<IndexEntryView> {
    posts.map_values(|p: PostView| IndexEntryView::BlogPost(p)) + talks.map_values(
        |t: TalkView| IndexEntryView::Talk(t),
    ) + externals.map_values(|e: ExternalView| IndexEntryView::External(e))
}

/// The index of the given posts, talks and links: newest first, entries of
/// one date in the order posts, talks, links and, within a kind, as given;
/// equal entries once.
pub open spec fn assemble_spec(
    posts: Seq<PostView>,
    talks: Seq<TalkView>,
    externals: Seq<ExternalView>,
) -> Seq<IndexEntryView> {
    ordered::<IndexEntry>(entries_of(posts, talks, externals))
}

/// A post among those given is in the index.
pub proof fn lemma_index_holds_post(
    posts: Seq<PostView>,
    talks: Seq<TalkView>,
    externals: Seq<ExternalView>,
    i: int,
)
    requires
        0 <= i < posts.len(),
    ensures
        assemble_spec(posts, talks, externals).contains(IndexEntryView::BlogPost(posts[i])),
{
    let entries = entries_of(posts, talks, externals);
    assert(entries[i] == IndexEntryView::BlogPost(posts[i]));
    law_ordered_keeps_members::<IndexEntry>(entries, IndexEntryView::BlogPost(posts[i]));
}

/// A post in the index is among those given.
pub proof fn lemma_index_post_was_given(
    posts: Seq<PostView>,
    talks: Seq<TalkView>,
    externals: Seq<ExternalView>,
    post: PostView,
)
    requires
        assemble_spec(posts, talks, externals).contains(IndexEntryView::BlogPost(post)),
    ensures
        posts.contains(post),
{
    let entries = entries_of(posts, talks, externals);
    let entry = IndexEntryView::BlogPost(post);
    law_ordered_keeps_members::<IndexEntry>(entries, entry);
    let k = choose|k: int| 0 <= k < entries.len() && entries[k] == entry;
    if k < posts.len() {
        assert(posts[k] == post);
    } else if k < posts.len() + talks.len() {
        assert(entries[k] == IndexEntryView::Talk(talks[k - posts.len()]));
    } else {
        assert(entries[k] == IndexEntryView::External(externals[k - posts.len() - talks.len()]));
    }
}

/// Index distinctness: two posts of the same date with different titles both
/// appear in the index, as two entries.
pub proof fn law_index_keeps_posts_of_one_date(
    posts: Seq<PostView>,
    talks: Seq<TalkView>,
    externals: Seq<ExternalView>,
    i: int,
    j: int,
)
    requires
        0 <= i < posts.len(),
        0 <= j < posts.len(),
        posts[i].metadata.date == posts[j].metadata.date,
        posts[i].metadata.title != posts[j].metadata.title,
    ensures
        assemble_spec(posts, talks, externals).contains(IndexEntryView::BlogPost(posts[i])),
        assemble_spec(posts, talks, externals).contains(IndexEntryView::BlogPost(posts[j])),
        IndexEntryView::BlogPost(posts[i]) != IndexEntryView::BlogPost(posts[j]),
{
    lemma_index_holds_post(posts, talks, externals, i);
    lemma_index_holds_post(posts, talks, externals, j);
}

/// Assembles the index of the given posts, talks and links.
pub fn assemble(posts: Vec<BlogPost>, talks: Vec<Talk>, externals: Vec<External>) -> (index: Vec<
    IndexEntry,
>)
    ensures
        models::<IndexEntry>(index@) == assemble_spec(
            models::<BlogPost>(posts@),
            models::<Talk>(talks@),
            models::<External>(externals@),
        ),
        descending::<IndexEntry>(models::<IndexEntry>(index@)),
        distinct(models::<IndexEntry>(index@)),
{
    let ghost p = models::<BlogPost>(posts@);
    let ghost t = models::<Talk>(talks@);
    let ghost e = models::<External>(externals@);
    let ghost all_posts = posts@;
    let ghost all_talks = talks@;
    let ghost all_externals = externals@;
    let mut entries: Vec<IndexEntry> = Vec::new();
    for post in it: posts
        invariant
            it.seq() == all_posts,
            models::<IndexEntry>(entries@) == models::<BlogPost>(
                all_posts.take(it.index() as int),
            ).map_values(|p: PostView| IndexEntryView::BlogPost(p)),
    {
        let ghost before = models::<IndexEntry>(entries@);
        entries.push(IndexEntry::BlogPost(post));
        proof {
            let n = it.index() as int;
            assert(models::<IndexEntry>(entries@) =~= before.push(IndexEntryView::BlogPost(post@)));
            assert(models::<BlogPost>(all_posts.take(n + 1)) =~= models::<BlogPost>(
                all_posts.take(n),
            ).push(post@));
            assert(models::<IndexEntry>(entries@) =~= models::<BlogPost>(
                all_posts.take(n + 1),
            ).map_values(|p: PostView| IndexEntryView::BlogPost(p)));
        }
    }
    proof {
        assert(all_posts.take(all_posts.len() as int) =~= all_posts);
    }
    let ghost first = models::<IndexEntry>(entries@);
    for talk in it: talks
        invariant
            it.seq() == all_talks,
            models::<IndexEntry>(entries@) == first + models::<Talk>(
                all_talks.take(it.index() as int),
            ).map_values(|t: TalkView| IndexEntryView::Talk(t)),
    {
        let ghost before = models::<IndexEntry>(entries@);
        entries.push(IndexEntry::Talk(talk));
        proof {
            let n = it.index() as int;
            assert(models::<IndexEntry>(entries@) =~= before.push(IndexEntryView::Talk(talk@)));
            assert(models::<Talk>(all_talks.take(n + 1)) =~= models::<Talk>(
                all_talks.take(n),
            ).push(talk@));
            assert(models::<IndexEntry>(entries@) =~= first + models::<Talk>(
                all_talks.take(n + 1),
            ).map_values(|t: TalkView| IndexEntryView::Talk(t)));
        }
    }
    proof {
        assert(all_talks.take(all_talks.len() as int) =~= all_talks);
    }
    let ghost second = models::<IndexEntry>(entries@);
    for external in it: externals
        invariant
            it.seq() == all_externals,
            models::<IndexEntry>(entries@) == second + models::<External>(
                all_externals.take(it.index() as int),
            ).map_values(|e: ExternalView| IndexEntryView::External(e)),
    {
        let ghost before = models::<IndexEntry>(entries@);
        entries.push(IndexEntry::External(external));
        proof {
            let n = it.index() as int;
            assert(models::<IndexEntry>(entries@) =~= before.push(
                IndexEntryView::External(external@),
            ));
            assert(models::<External>(all_externals.take(n + 1)) =~= models::<External>(
                all_externals.take(n),
            ).push(external@));
            assert(models::<IndexEntry>(entries@) =~= second + models::<External>(
                all_externals.take(n + 1),
            ).map_values(|e: ExternalView| IndexEntryView::External(e)));
        }
    }
    proof {
        assert(all_externals.take(all_externals.len() as int) =~= all_externals);
        assert(models::<IndexEntry>(entries@) =~= entries_of(p, t, e));
    }
    order_pages(entries)
}

} // verus!
