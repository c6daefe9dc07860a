//! What a build writes and what it lists.
//!
//! A build for publishing leaves out drafts and tests and insists that every
//! post it keeps has a date. Unlisted posts are written like the others but
//! appear neither in the index nor in the feed.

use vstd::prelude::*;
use crate::blog_post::{post_spec, BlogPost, PostView};
use crate::error::{BuildError, BuildErrorView};
use crate::external::{External, ExternalView};
use crate::index_entry::{
    assemble, assemble_spec, lemma_index_post_was_given, IndexEntry, IndexEntryView,
};
use crate::metadata::BlogPostStatus;
use crate::ordered::{law_ordered_keeps_members, models, order_pages, ordered};
use crate::page::Syntax;
use crate::talk::{talk_spec, Talk, TalkView};

verus! {

/// The members of `s` that satisfy `f`, in their order.
pub open spec fn keep<T>(s: Seq<T>, f: spec_fn(T) -> bool) -> Seq<T>
    decreases s.len(),
{
    if s.len() == 0 {
        Seq::empty()
    } else if f(s.last()) {
        keep(s.drop_last(), f).push(s.last())
    } else {
        keep(s.drop_last(), f)
    }
}

/// What is kept is what was there and satisfies `f`.
pub proof fn lemma_keep_members<T>(s: Seq<T>, f: spec_fn(T) -> bool, x: T)
    ensures
        keep(s, f).contains(x) <==> (s.contains(x) && f(x)),
    decreases s.len(),
{
    if s.len() > 0 {
        let rest = s.drop_last();
        lemma_keep_members(rest, f, x);
        let kept = keep(s, f);
        if kept.contains(x) {
            let k = choose|k: int| 0 <= k < kept.len() && kept[k] == x;
            if f(s.last()) && k == kept.len() - 1 {
                assert(s[s.len() - 1] == x);
            } else {
                assert(keep(rest, f)[k] == x);
                let m = choose|m: int| 0 <= m < rest.len() && rest[m] == x;
                assert(s[m] == x);
            }
        }
        if s.contains(x) && f(x) {
            let k = choose|k: int| 0 <= k < s.len() && s[k] == x;
            if k == s.len() - 1 {
                assert(kept[kept.len() - 1] == x);
            } else {
                assert(rest[k] == x);
                let m = choose|m: int| 0 <= m < keep(rest, f).len() && keep(rest, f)[m] == x;
                assert(kept[m] == x);
            }
        }
    }
}

/// A source file as read from the content directory: its path and its text.
#[derive(Debug)]
pub struct SourceFile {
    pub path: String,
    pub content: String,
}

/// The model of a `SourceFile`.
pub struct SourceView {
    pub path: Seq<char>,
    pub content: Seq<char>,
}

impl View for SourceFile {
    type V = SourceView;

    open spec fn view(&self) -> SourceView {
        SourceView { path: self.path@, content: self.content@ }
    }
}

/// The models of a sequence of source files.
pub open spec fn sources(files: Seq<SourceFile>) -> Seq<SourceView> {
    files.map_values(|f: SourceFile| f@)
}

/// The posts that the given files hold, in their order, or the failure of
/// the first file that holds none: one file that cannot be read fails them
/// all.
pub open spec fn posts_of(files: Seq<SourceView>, syntax: Syntax) -> Result<
    Seq<PostView>,
    BuildErrorView,
>
    decreases files.len(),
{
    if files.len() == 0 {
        Ok(Seq::empty())
    } else {
        match posts_of(files.drop_last(), syntax) {
            Err(e) => Err(e),
            Ok(posts) => match post_spec(files.last().path, files.last().content, syntax) {
                Err(e) => Err(e),
                Ok(post) => Ok(posts.push(post)),
            },
        }
    }
}

/// The talks that the given files hold, in their order, or the failure of
/// the first file that holds none.
pub open spec fn talks_of(files: Seq<SourceView>, syntax: Syntax) -> Result<
    Seq<TalkView>,
    BuildErrorView,
>
    decreases files.len(),
{
    if files.len() == 0 {
        Ok(Seq::empty())
    } else {
        match talks_of(files.drop_last(), syntax) {
            Err(e) => Err(e),
            Ok(talks) => match talk_spec(files.last().path, files.last().content, syntax) {
                Err(e) => Err(e),
                Ok(talk) => Ok(talks.push(talk)),
            },
        }
    }
}

/// The failure of a prefix of the files is the failure of them all.
proof fn lemma_posts_of_prefix(files: Seq<SourceView>, syntax: Syntax, n: int)
    requires
        0 <= n <= files.len(),
        posts_of(files.take(n), syntax) is Err,
    ensures
        posts_of(files, syntax) == posts_of(files.take(n), syntax),
    decreases files.len() - n,
{
    if n == files.len() {
        assert(files.take(n) =~= files);
    } else {
        assert(files.take(n + 1).drop_last() =~= files.take(n));
        lemma_posts_of_prefix(files, syntax, n + 1);
    }
}

/// The failure of a prefix of the files is the failure of them all.
proof fn lemma_talks_of_prefix(files: Seq<SourceView>, syntax: Syntax, n: int)
    requires
        0 <= n <= files.len(),
        talks_of(files.take(n), syntax) is Err,
    ensures
        talks_of(files, syntax) == talks_of(files.take(n), syntax),
    decreases files.len() - n,
{
    if n == files.len() {
        assert(files.take(n) =~= files);
    } else {
        assert(files.take(n + 1).drop_last() =~= files.take(n));
        lemma_talks_of_prefix(files, syntax, n + 1);
    }
}

/// Loading reads every file: where it succeeds, there is one post for each
/// file, in the order of the files, and it is the post that the file holds.
pub proof fn law_load_reads_one_post_per_file(files: Seq<SourceView>, syntax: Syntax)
    requires
        posts_of(files, syntax) is Ok,
    ensures
        posts_of(files, syntax)->Ok_0.len() == files.len(),
        forall|i: int|
            0 <= i < files.len() ==> post_spec(
                (#[trigger] files[i]).path,
                files[i].content,
                syntax,
            ) == Ok::<PostView, BuildErrorView>(posts_of(files, syntax)->Ok_0[i]),
    decreases files.len(),
{
    if files.len() > 0 {
        let rest = files.drop_last();
        law_load_reads_one_post_per_file(rest, syntax);
        let posts = posts_of(files, syntax)->Ok_0;
        assert forall|i: int| 0 <= i < files.len() implies post_spec(
            (#[trigger] files[i]).path,
            files[i].content,
            syntax,
        ) == Ok::<PostView, BuildErrorView>(posts[i]) by {
            if i < rest.len() {
                assert(files[i] == rest[i]);
                assert(posts[i] == posts_of(rest, syntax)->Ok_0[i]);
            }
        }
    }
}

/// Publish filter, from the files on: a preview build of files that all
/// hold posts writes every one of them, the drafts too.
pub proof fn law_preview_writes_every_loaded_post(files: Seq<SourceView>, syntax: Syntax, i: int)
    requires
        posts_of(files, syntax) is Ok,
        0 <= i < files.len(),
    ensures
        post_spec(files[i].path, files[i].content, syntax) matches Ok(post)
            && publish_filter_spec(posts_of(files, syntax)->Ok_0, false) matches Ok(written)
            && written.len() == files.len() && written[i] == post,
{
    law_load_reads_one_post_per_file(files, syntax);
}

/// The model of a talks reading's outcome.
pub open spec fn talks_result_view(r: Result<Vec<Talk>, BuildError>) -> Result<
    Seq<TalkView>,
    BuildErrorView,
> {
    match r {
        Ok(talks) => Ok(models::<Talk>(talks@)),
        Err(e) => Err(e@),
    }
}

/// Reads the posts of the given files; fails with the failure of the first
/// file that holds no post.
pub fn load_posts(files: Vec<SourceFile>, syntax: Syntax) -> (r: Result<Vec<BlogPost>, BuildError>)
    ensures
        posts_result_view(r) == posts_of(sources(files@), syntax),
{
    let ghost all = sources(files@);
    let ghost given = files@;
    let mut posts: Vec<BlogPost> = Vec::new();
    proof {
        assert(models::<BlogPost>(posts@) =~= Seq::<PostView>::empty());
    }
    for file in it: files
        invariant
            it.seq() == given,
            all == sources(given),
            posts_of(all.take(it.index() as int), syntax) == Ok::<Seq<PostView>, BuildErrorView>(
                models::<BlogPost>(posts@),
            ),
    {
        let ghost n = it.index() as int;
        let ghost before = models::<BlogPost>(posts@);
        proof {
            assert(all.take(n + 1).drop_last() =~= all.take(n));
            assert(all.take(n + 1).last() == file@);
        }
        match BlogPost::parse_as(file.path.as_str(), file.content, syntax) {
            Ok(post) => {
                posts.push(post);
                proof {
                    assert(models::<BlogPost>(posts@) =~= before.push(post@));
                }
            },
            Err(e) => {
                proof {
                    lemma_posts_of_prefix(all, syntax, n + 1);
                }
                return Err(e);
            },
        }
    }
    proof {
        assert(all.take(given.len() as int) =~= all);
    }
    Ok(posts)
}

/// Reads the talks of the given files; fails with the failure of the first
/// file that holds no talk.
pub fn load_talks(files: Vec<SourceFile>, syntax: Syntax) -> (r: Result<Vec<Talk>, BuildError>)
    ensures
        talks_result_view(r) == talks_of(sources(files@), syntax),
{
    let ghost all = sources(files@);
    let ghost given = files@;
    let mut talks: Vec<Talk> = Vec::new();
    proof {
        assert(models::<Talk>(talks@) =~= Seq::<TalkView>::empty());
    }
    for file in it: files
        invariant
            it.seq() == given,
            all == sources(given),
            talks_of(all.take(it.index() as int), syntax) == Ok::<Seq<TalkView>, BuildErrorView>(
                models::<Talk>(talks@),
            ),
    {
        let ghost n = it.index() as int;
        let ghost before = models::<Talk>(talks@);
        proof {
            assert(all.take(n + 1).drop_last() =~= all.take(n));
            assert(all.take(n + 1).last() == file@);
        }
        match Talk::parse_as(file.path.as_str(), file.content, syntax) {
            Ok(talk) => {
                talks.push(talk);
                proof {
                    assert(models::<Talk>(talks@) =~= before.push(talk@));
                }
            },
            Err(e) => {
                proof {
                    lemma_talks_of_prefix(all, syntax, n + 1);
                }
                return Err(e);
            },
        }
    }
    proof {
        assert(all.take(given.len() as int) =~= all);
    }
    Ok(talks)
}

/// A post in this state is part of a build for publishing.
pub open spec fn is_publishable(status: BlogPostStatus) -> bool {
    status == BlogPostStatus::Published || status == BlogPostStatus::Unlisted
}

/// The posts that a build for publishing keeps.
pub open spec fn publishable(posts: Seq<PostView>) -> Seq<PostView> {
    keep(posts, |p: PostView| is_publishable(p.metadata.status))
}

/// The posts that the index and the feed may show.
pub open spec fn listed(posts: Seq<PostView>) -> Seq<PostView> {
    keep(posts, |p: PostView| p.metadata.status != BlogPostStatus::Unlisted)
}

/// The first position at or after `from` whose post has no date, or the
/// length where all the rest have one.
pub open spec fn first_undated(posts: Seq<PostView>, from: int) -> int
    decreases posts.len() - from,
{
    if 0 <= from < posts.len() && posts[from].metadata.date is Some {
        first_undated(posts, from + 1)
    } else {
        from
    }
}

/// `first_undated` lies within the posts, every post before it has a date,
/// and the post it points at has none.
pub proof fn lemma_first_undated_bounds(posts: Seq<PostView>, from: int)
    requires
        0 <= from <= posts.len(),
    ensures
        from <= first_undated(posts, from) <= posts.len(),
        forall|i: int|
            from <= i < first_undated(posts, from) ==> (#[trigger] posts[i]).metadata.date is Some,
        first_undated(posts, from) < posts.len() ==> posts[first_undated(
            posts,
            from,
        )].metadata.date is None,
    decreases posts.len() - from,
{
    if from < posts.len() && posts[from].metadata.date is Some {
        lemma_first_undated_bounds(posts, from + 1);
    }
}

/// The posts that a build writes.
///
/// A preview build writes every post. A build for publishing writes the
/// published and the unlisted posts, and fails where one of them has no date,
/// naming the first such post.
pub open spec fn publish_filter_spec(posts: Seq<PostView>, publish: bool) -> Result<
    Seq<PostView>,
    BuildErrorView,
> {
    if !publish {
        Ok(posts)
    } else {
        let kept = publishable(posts);
        let k = first_undated(kept, 0);
        if 0 <= k < kept.len() {
            Err(BuildErrorView::PublishInvariantViolation { path: kept[k].path })
        } else {
            Ok(kept)
        }
    }
}

/// The model of a filtering's outcome.
pub open spec fn posts_result_view(r: Result<Vec<BlogPost>, BuildError>) -> Result<
    Seq<PostView>,
    BuildErrorView,
> {
    match r {
        Ok(posts) => Ok(models::<BlogPost>(posts@)),
        Err(e) => Err(e@),
    }
}

/// Publish filter: a draft is written by a preview build and by no build for
/// publishing.
pub proof fn law_draft_only_in_preview(posts: Seq<PostView>, i: int)
    requires
        0 <= i < posts.len(),
        posts[i].metadata.status == BlogPostStatus::Draft,
    ensures
        publish_filter_spec(posts, false) == Ok::<Seq<PostView>, BuildErrorView>(posts),
        publish_filter_spec(posts, true) matches Ok(kept) ==> !kept.contains(posts[i]),
{
    lemma_keep_members(posts, |p: PostView| is_publishable(p.metadata.status), posts[i]);
}

/// Publish invariant: a published post without a date fails a build for
/// publishing, and only that build; the preview build writes it.
pub proof fn law_undated_post_fails_publishing(posts: Seq<PostView>, i: int)
    requires
        0 <= i < posts.len(),
        is_publishable(posts[i].metadata.status),
        posts[i].metadata.date is None,
    ensures
        publish_filter_spec(posts, true) matches Err(
            BuildErrorView::PublishInvariantViolation { .. },
        ),
        publish_filter_spec(posts, false) == Ok::<Seq<PostView>, BuildErrorView>(posts),
{
    let kept = publishable(posts);
    lemma_keep_members(posts, |p: PostView| is_publishable(p.metadata.status), posts[i]);
    assert(posts.contains(posts[i]));
    let k = choose|k: int| 0 <= k < kept.len() && kept[k] == posts[i];
    lemma_first_undated_bounds(kept, 0);
    if first_undated(kept, 0) >= kept.len() {
        assert(kept[k].metadata.date is Some);
    }
}

/// A build for publishing succeeds exactly when every post it keeps has a
/// date.
pub proof fn law_publishing_needs_dates(posts: Seq<PostView>)
    ensures
        publish_filter_spec(posts, true) is Ok <==> forall|i: int|
            0 <= i < posts.len() && is_publishable((#[trigger] posts[i]).metadata.status)
                ==> posts[i].metadata.date is Some,
{
    let kept = publishable(posts);
    let f = |p: PostView| is_publishable(p.metadata.status);
    lemma_first_undated_bounds(kept, 0);
    let k = first_undated(kept, 0);
    if k < kept.len() {
        lemma_keep_members(posts, f, kept[k]);
        assert(kept.contains(kept[k]));
        let m = choose|m: int| 0 <= m < posts.len() && posts[m] == kept[k];
        assert(is_publishable(posts[m].metadata.status) && posts[m].metadata.date is None);
    } else {
        assert forall|i: int|
            0 <= i < posts.len() && is_publishable(
                (#[trigger] posts[i]).metadata.status,
            ) implies posts[i].metadata.date is Some by {
            lemma_keep_members(posts, f, posts[i]);
            assert(posts.contains(posts[i]));
            let m = choose|m: int| 0 <= m < kept.len() && kept[m] == posts[i];
            assert(kept[m].metadata.date is Some);
        }
    }
}

/// Chooses the posts that a build writes.
pub fn publish_filter(posts: Vec<BlogPost>, publish: bool) -> (r: Result<Vec<BlogPost>, BuildError>)
    ensures
        posts_result_view(r) == publish_filter_spec(models::<BlogPost>(posts@), publish),
{
    if !publish {
        return Ok(posts);
    }
    let ghost all = posts@;
    let mut kept: Vec<BlogPost> = Vec::new();
    proof {
        assert(models::<BlogPost>(kept@) =~= publishable(models::<BlogPost>(all.take(0))));
    }
    for post in it: posts
        invariant
            it.seq() == all,
            models::<BlogPost>(kept@) == publishable(
                models::<BlogPost>(all.take(it.index() as int)),
            ),
    {
        let ghost before = models::<BlogPost>(kept@);
        proof {
            let n = it.index() as int;
            assert(models::<BlogPost>(all.take(n + 1)).drop_last() =~= models::<BlogPost>(
                all.take(n),
            ));
            assert(models::<BlogPost>(all.take(n + 1)).last() == post@);
        }
        match post.metadata.status {
            BlogPostStatus::Published | BlogPostStatus::Unlisted => {
                kept.push(post);
                proof {
                    assert(models::<BlogPost>(kept@) =~= before.push(post@));
                }
            },
            _ => {},
        }
    }
    proof {
        assert(all.take(all.len() as int) =~= all);
    }
    let ghost model = models::<BlogPost>(kept@);
    let mut k: usize = 0;
    while k < kept.len()
        invariant
            k <= kept.len(),
            publish,
            all == posts@,
            model == models::<BlogPost>(kept@),
            model == publishable(models::<BlogPost>(all)),
            first_undated(model, 0) == first_undated(model, k as int),
        decreases kept.len() - k,
    {
        proof {
            assert(model[k as int] == kept@[k as int]@);
        }
        if kept[k].metadata.date.is_none() {
            return Err(BuildError::PublishInvariantViolation { path: kept[k].path.clone() });
        }
        k += 1;
    }
    Ok(kept)
}

/// Leaves out the unlisted posts.
pub fn listed_posts(posts: Vec<BlogPost>) -> (out: Vec<BlogPost>)
    ensures
        models::<BlogPost>(out@) == listed(models::<BlogPost>(posts@)),
{
    let ghost all = posts@;
    let mut out: Vec<BlogPost> = Vec::new();
    proof {
        assert(models::<BlogPost>(out@) =~= listed(models::<BlogPost>(all.take(0))));
    }
    for post in it: posts
        invariant
            it.seq() == all,
            models::<BlogPost>(out@) == listed(models::<BlogPost>(all.take(it.index() as int))),
    {
        let ghost before = models::<BlogPost>(out@);
        proof {
            let n = it.index() as int;
            assert(models::<BlogPost>(all.take(n + 1)).drop_last() =~= models::<BlogPost>(
                all.take(n),
            ));
            assert(models::<BlogPost>(all.take(n + 1)).last() == post@);
        }
        match post.metadata.status {
            BlogPostStatus::Unlisted => {},
            _ => {
                out.push(post);
                proof {
                    assert(models::<BlogPost>(out@) =~= before.push(post@));
                }
            },
        }
    }
    proof {
        assert(all.take(all.len() as int) =~= all);
    }
    out
}

/// Copies a vector of posts.
pub fn copy_posts(posts: &Vec<BlogPost>) -> (out: Vec<BlogPost>)
    ensures
        models::<BlogPost>(out@) == models::<BlogPost>(posts@),
{
    let mut out: Vec<BlogPost> = Vec::new();
    let mut i: usize = 0;
    while i < posts.len()
        invariant
            i <= posts.len(),
            models::<BlogPost>(out@) == models::<BlogPost>(posts@).take(i as int),
        decreases posts.len() - i,
    {
        let ghost before = models::<BlogPost>(out@);
        out.push(posts[i].duplicate());
        proof {
            assert(models::<BlogPost>(out@) =~= before.push(posts@[i as int]@));
            assert(models::<BlogPost>(posts@).take(i + 1) =~= models::<BlogPost>(posts@).take(
                i as int,
            ).push(posts@[i as int]@));
        }
        i += 1;
    }
    proof {
        assert(models::<BlogPost>(posts@).take(posts@.len() as int) =~= models::<BlogPost>(
            posts@,
        ));
    }
    out
}

/// Copies a vector of talks.
pub fn copy_talks(talks: &Vec<Talk>) -> (out: Vec<Talk>)
    ensures
        models::<Talk>(out@) == models::<Talk>(talks@),
{
    let mut out: Vec<Talk> = Vec::new();
    let mut i: usize = 0;
    while i < talks.len()
        invariant
            i <= talks.len(),
            models::<Talk>(out@) == models::<Talk>(talks@).take(i as int),
        decreases talks.len() - i,
    {
        let ghost before = models::<Talk>(out@);
        out.push(talks[i].duplicate());
        proof {
            assert(models::<Talk>(out@) =~= before.push(talks@[i as int]@));
            assert(models::<Talk>(talks@).take(i + 1) =~= models::<Talk>(talks@).take(
                i as int,
            ).push(talks@[i as int]@));
        }
        i += 1;
    }
    proof {
        assert(models::<Talk>(talks@).take(talks@.len() as int) =~= models::<Talk>(talks@));
    }
    out
}

/// What a build does: the posts and talks it writes, and what it lists in
/// the index and in the feed.
#[derive(Debug)]
pub struct SitePlan {
    pub posts: Vec<BlogPost>,
    pub talks: Vec<Talk>,
    pub index: Vec<IndexEntry>,
    pub feed: Vec<BlogPost>,
}

/// The model of a `SitePlan`.
pub struct SitePlanView {
    pub posts: Seq<PostView>,
    pub talks: Seq<TalkView>,
    pub index: Seq<IndexEntryView>,
    pub feed: Seq<PostView>,
}

impl View for SitePlan {
    type V = SitePlanView;

    open spec fn view(&self) -> SitePlanView {
        SitePlanView {
            posts: models::<BlogPost>(self.posts@),
            talks: models::<Talk>(self.talks@),
            index: models::<IndexEntry>(self.index@),
            feed: models::<BlogPost>(self.feed@),
        }
    }
}

/// What a build does with the given posts, talks and links.
///
/// The posts that the build keeps are written, newest first. Those of them
/// that are not unlisted make the feed, and with the talks and the links the
/// index. Every talk is written.
pub open spec fn site_plan_spec(
    posts: Seq<PostView>,
    talks: Seq<TalkView>,
    externals: Seq<ExternalView>,
    publish: bool,
) -> Result<SitePlanView, BuildErrorView> {
    match publish_filter_spec(posts, publish) {
        Err(e) => Err(e),
        Ok(kept) => {
            let written = ordered::<BlogPost>(kept);
            let feed = listed(written);
            Ok(
                SitePlanView {
                    posts: written,
                    talks,
                    index: assemble_spec(feed, talks, externals),
                    feed,
                },
            )
        },
    }
}

/// The model of a planning's outcome.
pub open spec fn plan_result_view(r: Result<SitePlan, BuildError>) -> Result<
    SitePlanView,
    BuildErrorView,
> {
    match r {
        Ok(plan) => Ok(plan@),
        Err(e) => Err(e@),
    }
}

/// Unlisted visibility: an unlisted post of a build that succeeds is
/// written, and is neither in the index nor in the feed.
pub proof fn law_unlisted_is_written_not_listed(
    posts: Seq<PostView>,
    talks: Seq<TalkView>,
    externals: Seq<ExternalView>,
    publish: bool,
    i: int,
)
    requires
        0 <= i < posts.len(),
        posts[i].metadata.status == BlogPostStatus::Unlisted,
        site_plan_spec(posts, talks, externals, publish) is Ok,
    ensures
        site_plan_spec(posts, talks, externals, publish) matches Ok(plan) && plan.posts.contains(
            posts[i],
        ) && !plan.feed.contains(posts[i]) && !plan.index.contains(
            IndexEntryView::BlogPost(posts[i]),
        ),
{
    let post = posts[i];
    let kept = publish_filter_spec(posts, publish)->Ok_0;
    assert(posts.contains(post));
    lemma_keep_members(posts, |p: PostView| is_publishable(p.metadata.status), post);
    assert(kept.contains(post));
    law_ordered_keeps_members::<BlogPost>(kept, post);
    let written = ordered::<BlogPost>(kept);
    let feed = listed(written);
    lemma_keep_members(written, |p: PostView| p.metadata.status != BlogPostStatus::Unlisted, post);
    if assemble_spec(feed, talks, externals).contains(IndexEntryView::BlogPost(post)) {
        lemma_index_post_was_given(feed, talks, externals, post);
    }
}

/// Publish filter, seen from the whole build: a draft is written by a
/// preview build, and a build for publishing neither writes nor lists it.
pub proof fn law_draft_is_left_out_of_publishing(
    posts: Seq<PostView>,
    talks: Seq<TalkView>,
    externals: Seq<ExternalView>,
    i: int,
)
    requires
        0 <= i < posts.len(),
        posts[i].metadata.status == BlogPostStatus::Draft,
    ensures
        site_plan_spec(posts, talks, externals, false) matches Ok(plan) && plan.posts.contains(
            posts[i],
        ),
        site_plan_spec(posts, talks, externals, true) matches Ok(plan) ==> !plan.posts.contains(
            posts[i],
        ) && !plan.feed.contains(posts[i]) && !plan.index.contains(
            IndexEntryView::BlogPost(posts[i]),
        ),
{
    let post = posts[i];
    assert(posts.contains(post));
    law_ordered_keeps_members::<BlogPost>(posts, post);
    if site_plan_spec(posts, talks, externals, true) is Ok {
        let kept = publishable(posts);
        lemma_keep_members(posts, |p: PostView| is_publishable(p.metadata.status), post);
        law_ordered_keeps_members::<BlogPost>(kept, post);
        let written = ordered::<BlogPost>(kept);
        let feed = listed(written);
        lemma_keep_members(
            written,
            |p: PostView| p.metadata.status != BlogPostStatus::Unlisted,
            post,
        );
        if assemble_spec(feed, talks, externals).contains(IndexEntryView::BlogPost(post)) {
            lemma_index_post_was_given(feed, talks, externals, post);
        }
    }
}

/// Plans a build: chooses the posts to write, orders them, and assembles the
/// feed and the index.
///
/// Fails with `PublishInvariantViolation` exactly when the build is for
/// publishing and a published or unlisted post has no date.
pub fn plan_site(
    posts: Vec<BlogPost>,
    talks: Vec<Talk>,
    externals: Vec<External>,
    publish: bool,
) -> (r: Result<SitePlan, BuildError>)
    ensures
        plan_result_view(r) == site_plan_spec(
            models::<BlogPost>(posts@),
            models::<Talk>(talks@),
            models::<External>(externals@),
            publish,
        ),
{
    let kept = match publish_filter(posts, publish) {
        Ok(kept) => kept,
        Err(e) => {
            return Err(e);
        },
    };
    let written = order_pages(kept);
    let feed = listed_posts(copy_posts(&written));
    let index = assemble(copy_posts(&feed), copy_talks(&talks), externals);
    Ok(SitePlan { posts: written, talks, index, feed })
}

} // verus!
