//! Ordering entries by date, newest first.
//!
//! The order is strict and total: entries are ranked by date, an absent date
//! counting as the oldest possible, and entries of the same date keep the
//! order in which they came. An entry is left out only where an entry equal
//! to it in every field is already there: the date ranks entries, the whole
//! value tells them apart.

use vstd::prelude::*;
use vstd::std_specs::slice::into_iter_elts;
use crate::date::{key_is_before, key_precedes, Date};
use crate::page::{retain_pages, select, AsHtml};

verus! {

/// An entry that has a place in a dated listing.
pub trait Entry: View + Sized {
    /// The date by which an entry with this model is ranked.
    spec fn date_of(model: Self::V) -> Option<Date>;

    /// The date by which the entry is ranked.
    fn date(&self) -> (d: Option<Date>)
        ensures
            d == Self::date_of(self@),
    ;

    /// Tells whether two entries are equal in every field.
    fn same(&self, other: &Self) -> (b: bool)
        ensures
            b == (self@ == other@),
    ;
}

/// The models of a sequence of entries.
pub open spec fn models<E: Entry>(s: Seq<E>) -> Seq<E::V> {
    s.map_values(|e: E| e@)
}

/// The place of a new entry dated `d`: the first position at or after `from`
/// whose entry is strictly older, or the length where there is none.
pub open spec fn insert_position<E: Entry>(s: Seq<E::V>, d: Option<Date>, from: int) -> int
    decreases s.len() - from,
{
    if 0 <= from < s.len() && !key_precedes(E::date_of(s[from]), d) {
        insert_position::<E>(s, d, from + 1)
    } else {
        from
    }
}

/// The listing `s` with `v` put in: unchanged where `s` holds `v` already,
/// else with `v` after every entry that is not older than it.
pub open spec fn insert_entry<E: Entry>(s: Seq<E::V>, v: E::V) -> Seq<E::V> {
    if s.contains(v) {
        s
    } else {
        s.insert(insert_position::<E>(s, E::date_of(v), 0), v)
    }
}

/// The listing of the given entries: each put in, in turn, from the first.
pub open spec fn ordered<E: Entry>(input: Seq<E::V>) -> Seq<E::V>
    decreases input.len(),
{
    if input.len() == 0 {
        Seq::empty()
    } else {
        insert_entry::<E>(ordered::<E>(input.drop_last()), input.last())
    }
}

/// No entry is followed by a newer one.
pub open spec fn descending<E: Entry>(s: Seq<E::V>) -> bool {
    forall|i: int, j: int|
        0 <= i < j < s.len() ==> !key_precedes(E::date_of(#[trigger] s[i]), E::date_of(#[trigger] s[j]))
}

/// No two entries are equal.
pub open spec fn distinct<V>(s: Seq<V>) -> bool {
    forall|i: int, j: int| 0 <= i < j < s.len() ==> #[trigger] s[i] != #[trigger] s[j]
}

/// The order of sort keys is transitive, and a key that is not older than a
/// second one is not older than any key older than the second.
pub proof fn lemma_key_order(a: Option<Date>, b: Option<Date>, c: Option<Date>)
    ensures
        key_precedes(a, b) && key_precedes(b, c) ==> key_precedes(a, c),
        !key_precedes(a, b) && key_precedes(c, b) ==> key_precedes(c, a),
        !key_precedes(a, b) && !key_precedes(b, c) ==> !key_precedes(a, c),
        key_precedes(a, b) ==> !key_precedes(b, a),
{
}

/// The place of a new entry lies within the listing, behind entries that are
/// not older than it and before one that is.
pub proof fn lemma_insert_position_bounds<E: Entry>(s: Seq<E::V>, d: Option<Date>, from: int)
    requires
        0 <= from <= s.len(),
    ensures
        from <= insert_position::<E>(s, d, from) <= s.len(),
        forall|i: int|
            from <= i < insert_position::<E>(s, d, from) ==> !key_precedes(
                E::date_of(#[trigger] s[i]),
                d,
            ),
        insert_position::<E>(s, d, from) < s.len() ==> key_precedes(
            E::date_of(s[insert_position::<E>(s, d, from)]),
            d,
        ),
    decreases s.len() - from,
{
    if from < s.len() && !key_precedes(E::date_of(s[from]), d) {
        lemma_insert_position_bounds::<E>(s, d, from + 1);
    }
}

/// Putting an entry into a descending listing leaves it descending.
pub proof fn lemma_insert_descending<E: Entry>(s: Seq<E::V>, v: E::V)
    requires
        descending::<E>(s),
    ensures
        descending::<E>(insert_entry::<E>(s, v)),
{
    if !s.contains(v) {
        let d = E::date_of(v);
        let p = insert_position::<E>(s, d, 0);
        lemma_insert_position_bounds::<E>(s, d, 0);
        let t = s.insert(p, v);
        assert forall|i: int, j: int| 0 <= i < j < t.len() implies !key_precedes(
            E::date_of(#[trigger] t[i]),
            E::date_of(#[trigger] t[j]),
        ) by {
            if j < p {
                assert(t[i] == s[i] && t[j] == s[j]);
            } else if j == p {
                assert(t[i] == s[i]);
            } else if i < p {
                assert(t[i] == s[i] && t[j] == s[j - 1]);
            } else if i == p {
                assert(t[j] == s[j - 1]);
                lemma_key_order(E::date_of(s[p]), E::date_of(s[j - 1]), d);
                if j - 1 > p {
                    assert(!key_precedes(E::date_of(s[p]), E::date_of(s[j - 1])));
                }
                lemma_key_order(d, E::date_of(s[j - 1]), E::date_of(s[p]));
                lemma_key_order(E::date_of(s[j - 1]), E::date_of(s[p]), d);
            } else {
                assert(t[i] == s[i - 1] && t[j] == s[j - 1]);
            }
        }
    }
}

/// Putting an entry into a listing without equal entries leaves it so.
pub proof fn lemma_insert_distinct<E: Entry>(s: Seq<E::V>, v: E::V)
    requires
        distinct(s),
    ensures
        distinct(insert_entry::<E>(s, v)),
{
    if !s.contains(v) {
        let p = insert_position::<E>(s, E::date_of(v), 0);
        lemma_insert_position_bounds::<E>(s, E::date_of(v), 0);
        let t = s.insert(p, v);
        assert forall|i: int, j: int| 0 <= i < j < t.len() implies #[trigger] t[i] != #[trigger] t[j] by {
            let a = if i < p {
                i
            } else {
                i - 1
            };
            let b = if j < p {
                j
            } else {
                j - 1
            };
            if i == p {
                assert(t[j] == s[b]);
                assert(s.contains(s[b]));
            } else if j == p {
                assert(t[i] == s[a]);
                assert(s.contains(s[a]));
            } else {
                assert(t[i] == s[a] && t[j] == s[b]);
            }
        }
    }
}

/// A listing with an entry put in holds that entry and what it held before,
/// and nothing else.
pub proof fn lemma_insert_members<E: Entry>(s: Seq<E::V>, v: E::V, x: E::V)
    ensures
        insert_entry::<E>(s, v).contains(x) <==> (s.contains(x) || x == v),
{
    if !s.contains(v) {
        let p = insert_position::<E>(s, E::date_of(v), 0);
        lemma_insert_position_bounds::<E>(s, E::date_of(v), 0);
        let t = s.insert(p, v);
        if t.contains(x) {
            let k = choose|k: int| 0 <= k < t.len() && t[k] == x;
            if k < p {
                assert(s[k] == x);
            } else if k > p {
                assert(s[k - 1] == x);
            }
        }
        if s.contains(x) {
            let k = choose|k: int| 0 <= k < s.len() && s[k] == x;
            if k < p {
                assert(t[k] == x);
            } else {
                assert(t[k + 1] == x);
            }
        }
        if x == v {
            assert(t[p] == x);
        }
    }
}

/// Ordering: a listing never puts an entry before a newer one.
pub proof fn law_ordered_is_descending<E: Entry>(input: Seq<E::V>)
    ensures
        descending::<E>(ordered::<E>(input)),
    decreases input.len(),
{
    if input.len() > 0 {
        law_ordered_is_descending::<E>(input.drop_last());
        lemma_insert_descending::<E>(ordered::<E>(input.drop_last()), input.last());
    }
}

/// Duplicates collapse: a listing holds no two equal entries.
pub proof fn law_ordered_is_distinct<E: Entry>(input: Seq<E::V>)
    ensures
        distinct(ordered::<E>(input)),
    decreases input.len(),
{
    if input.len() > 0 {
        law_ordered_is_distinct::<E>(input.drop_last());
        lemma_insert_distinct::<E>(ordered::<E>(input.drop_last()), input.last());
    }
}

/// Nothing is dropped and nothing is made up: a listing holds exactly the
/// entries that were given, whatever their dates.
pub proof fn law_ordered_keeps_members<E: Entry>(input: Seq<E::V>, x: E::V)
    ensures
        ordered::<E>(input).contains(x) <==> input.contains(x),
    decreases input.len(),
{
    if input.len() > 0 {
        let rest = input.drop_last();
        law_ordered_keeps_members::<E>(rest, x);
        lemma_insert_members::<E>(ordered::<E>(rest), input.last(), x);
        if input.contains(x) {
            let k = choose|k: int| 0 <= k < input.len() && input[k] == x;
            if k < rest.len() {
                assert(rest[k] == x);
            }
        }
        if rest.contains(x) {
            let k = choose|k: int| 0 <= k < rest.len() && rest[k] == x;
            assert(input[k] == x);
        }
        if x == input.last() {
            assert(input[input.len() - 1] == x);
        }
    }
}

/// Distinctness: two entries that differ in any field both appear in the
/// listing, even where their dates are the same.
pub proof fn law_ordered_keeps_distinct_entries<E: Entry>(input: Seq<E::V>, i: int, j: int)
    requires
        0 <= i < input.len(),
        0 <= j < input.len(),
        input[i] != input[j],
    ensures
        exists|a: int, b: int|
            0 <= a < ordered::<E>(input).len() && 0 <= b < ordered::<E>(input).len() && a != b
                && ordered::<E>(input)[a] == input[i] && ordered::<E>(input)[b] == input[j],
{
    let out = ordered::<E>(input);
    law_ordered_keeps_members::<E>(input, input[i]);
    law_ordered_keeps_members::<E>(input, input[j]);
    assert(input.contains(input[i]));
    assert(input.contains(input[j]));
    let a = choose|a: int| 0 <= a < out.len() && out[a] == input[i];
    let b = choose|b: int| 0 <= b < out.len() && out[b] == input[j];
    assert(a != b);
}

/// Puts a page into a listing.
pub fn insert_page<E: Entry>(pages: &mut Vec<E>, page: E)
    ensures
        models::<E>(final(pages)@) == insert_entry::<E>(models::<E>(old(pages)@), page@),
{
    let ghost before = models::<E>(pages@);
    let mut i: usize = 0;
    while i < pages.len()
        invariant
            i <= pages.len(),
            pages@ == old(pages)@,
            before == models::<E>(pages@),
            forall|k: int| 0 <= k < i ==> before[k] != page@,
        decreases pages.len() - i,
    {
        if pages[i].same(&page) {
            proof {
                assert(before[i as int] == page@);
            }
            return ;
        }
        i += 1;
    }
    proof {
        assert(!before.contains(page@));
    }
    let d = page.date();
    let mut p: usize = 0;
    while p < pages.len() && !key_is_before(&pages[p].date(), &d)
        invariant
            p <= pages.len(),
            pages@ == old(pages)@,
            before == models::<E>(pages@),
            d == E::date_of(page@),
            insert_position::<E>(before, d, 0) == insert_position::<E>(before, d, p as int),
        decreases pages.len() - p,
    {
        p += 1;
    }
    pages.insert(p, page);
    proof {
        assert(models::<E>(pages@) =~= before.insert(p as int, page@));
    }
}

/// Lists the given pages: newest first, pages of one date in the order in
/// which they were given, equal pages once.
pub fn order_pages<E: Entry>(input: Vec<E>) -> (out: Vec<E>)
    ensures
        models::<E>(out@) == ordered::<E>(models::<E>(input@)),
        descending::<E>(models::<E>(out@)),
        distinct(models::<E>(out@)),
{
    let mut out: Vec<E> = Vec::new();
    let ghost all = input@;
    proof {
        assert(models::<E>(out@) =~= Seq::<E::V>::empty());
        assert(models::<E>(all.take(0)) =~= Seq::<E::V>::empty());
    }
    for page in it: input
        invariant
            it.seq() == all,
            models::<E>(out@) == ordered::<E>(models::<E>(all.take(it.index() as int))),
    {
        proof {
            let n = it.index() as int;
            assert(models::<E>(all.take(n + 1)).drop_last() =~= models::<E>(all.take(n)));
            assert(models::<E>(all.take(n + 1)).last() == page@);
        }
        insert_page(&mut out, page);
    }
    proof {
        assert(all.take(all.len() as int) =~= all);
        law_ordered_is_descending::<E>(models::<E>(all));
        law_ordered_is_distinct::<E>(models::<E>(all));
    }
    out
}

/// What is selected from a sequence was in it.
pub proof fn lemma_select_members<T>(s: Seq<T>, kept: Seq<bool>, k: int)
    requires
        kept.len() == s.len(),
        0 <= k < select(s, kept).len(),
    ensures
        s.contains(select(s, kept)[k]),
    decreases s.len(),
{
    if s.len() > 0 {
        let rest = select(s.drop_last(), kept.drop_last());
        if kept.last() && k == rest.len() {
            assert(s[s.len() - 1] == select(s, kept)[k]);
        } else {
            lemma_select_members(s.drop_last(), kept.drop_last(), k);
            let m = choose|m: int| 0 <= m < s.drop_last().len() && s.drop_last()[m] == rest[k];
            assert(s[m] == rest[k]);
        }
    }
}

/// A selection from a listing is a listing: it is descending and without
/// equal entries where the whole was.
pub proof fn lemma_select_listing<E: Entry>(s: Seq<E>, kept: Seq<bool>)
    requires
        kept.len() == s.len(),
        descending::<E>(models::<E>(s)),
        distinct(models::<E>(s)),
    ensures
        descending::<E>(models::<E>(select(s, kept))),
        distinct(models::<E>(select(s, kept))),
    decreases s.len(),
{
    if s.len() > 0 {
        let head = s.drop_last();
        let marks = kept.drop_last();
        let whole = models::<E>(s);
        assert forall|i: int, j: int| 0 <= i < j < head.len() implies !key_precedes(
            E::date_of(#[trigger] models::<E>(head)[i]),
            E::date_of(#[trigger] models::<E>(head)[j]),
        ) by {
            assert(models::<E>(head)[i] == whole[i] && models::<E>(head)[j] == whole[j]);
        }
        assert forall|i: int, j: int| 0 <= i < j < head.len() implies #[trigger] models::<E>(
            head,
        )[i] != #[trigger] models::<E>(head)[j] by {
            assert(models::<E>(head)[i] == whole[i] && models::<E>(head)[j] == whole[j]);
        }
        lemma_select_listing::<E>(head, marks);
        if kept.last() {
            let sel = select(head, marks);
            let out = models::<E>(select(s, kept));
            let last = s.len() - 1;
            assert forall|i: int, j: int| 0 <= i < j < out.len() implies !key_precedes(
                E::date_of(#[trigger] out[i]),
                E::date_of(#[trigger] out[j]),
            ) && out[i] != out[j] by {
                if j < sel.len() {
                    assert(out[i] == models::<E>(sel)[i] && out[j] == models::<E>(sel)[j]);
                } else {
                    lemma_select_members(head, marks, i);
                    let m = choose|m: int| 0 <= m < head.len() && head[m] == sel[i];
                    assert(out[i] == whole[m]);
                    assert(out[j] == whole[last]);
                }
            }
        }
    }
}

/// The pages of a directory as a listing: newest first, equal pages once.
#[derive(Debug)]
pub struct OrderedPageCollection<E: AsHtml + Entry> {
    pages: Vec<E>,
}

impl<E: AsHtml + Entry> View for OrderedPageCollection<E> {
    type V = Seq<E::V>;

    closed spec fn view(&self) -> Seq<E::V> {
        models::<E>(self.pages@)
    }
}

impl<E: AsHtml + Entry> OrderedPageCollection<E> {
    /// The pages are in descending order and no two are equal.
    #[verifier::type_invariant]
    spec fn is_listing(&self) -> bool {
        descending::<E>(models::<E>(self.pages@)) && distinct(models::<E>(self.pages@))
    }

    /// The pages themselves, newest first.
    pub closed spec fn pages(&self) -> Seq<E> {
        self.pages@
    }

    /// The listing of the given pages.
    pub fn from_pages(pages: Vec<E>) -> (c: Self)
        ensures
            c@ == ordered::<E>(models::<E>(pages@)),
            c@ == models::<E>(c.pages()),
    {
        OrderedPageCollection { pages: order_pages(pages) }
    }

    /// The pages, newest first and no two of them equal.
    pub fn into_set(self) -> (v: Vec<E>)
        ensures
            v@ == self.pages(),
            models::<E>(v@) == self@,
            descending::<E>(self@),
            distinct(self@),
    {
        proof {
            use_type_invariant(&self);
        }
        self.pages
    }

    /// An iterator over the pages, newest first and no two of them equal.
    pub fn iter(&self) -> (it: core::slice::Iter<'_, E>)
        ensures
            into_iter_elts(it) == self.pages(),
            models::<E>(self.pages()) == self@,
            descending::<E>(self@),
            distinct(self@),
    {
        proof {
            use_type_invariant(self);
        }
        self.pages.iter()
    }

    /// Keeps the pages for which `f` answers `true`, in their order.
    pub fn retain<F: Fn(&E) -> bool>(&mut self, f: F)
        requires
            forall|i: int|
                0 <= i < old(self).pages().len() ==> call_requires(
                    f,
                    (&#[trigger] old(self).pages()[i],),
                ),
        ensures
            final(self)@ == models::<E>(final(self).pages()),
            exists|kept: Seq<bool>|
                {
                    &&& kept.len() == old(self).pages().len()
                    &&& forall|i: int|
                        0 <= i < kept.len() ==> call_ensures(
                            f,
                            (&old(self).pages()[i],),
                            #[trigger] kept[i],
                        )
                    &&& final(self).pages() == select(old(self).pages(), kept)
                },
    {
        proof {
            use_type_invariant(&*self);
        }
        let mut pages: Vec<E> = Vec::new();
        core::mem::swap(&mut self.pages, &mut pages);
        proof {
            assert(pages@ == old(self).pages());
            assert forall|i: int| 0 <= i < pages.len() implies call_requires(
                f,
                (&#[trigger] pages@[i],),
            ) by {
                assert(pages@[i] == old(self).pages()[i]);
            }
        }
        let (out, Ghost(kept)) = retain_pages(pages, &f);
        proof {
            lemma_select_listing::<E>(old(self).pages(), kept);
        }
        self.pages = out;
    }
}

} // verus!
