//! Splitting a raw document into its front matter and its body.
//!
//! A document may open with a block of metadata between two delimiter lines.
//! Blank lines before the block are skipped; everything after the closing
//! delimiter is the body, whatever it holds.

use vstd::prelude::*;
use crate::error::{ParseError, ParseErrorView};
use crate::text::{
    all_lines, chars_of, is_blank, is_line, is_space, is_whitespace, join_lines, join_range,
    lemma_join_concat, lemma_join_one, lemma_lines_of_join, line_is_blank, lines, split_lines,
    string_of, views,
};

verus! {

/// A delimiter line: three or more characters, all the same one, which is not
/// white space.
pub open spec fn is_delimiter(line: Seq<char>) -> bool {
    &&& line.len() >= 3
    &&& !is_space(line[0])
    &&& forall|i: int| 0 <= i < line.len() ==> #[trigger] line[i] == line[0]
}

/// Tells whether a line is a delimiter line.
pub fn line_is_delimiter(line: &Vec<char>) -> (b: bool)
    ensures
        b == is_delimiter(line@),
{
    if line.len() < 3 {
        return false;
    }
    let first = line[0];
    if is_whitespace(first) {
        return false;
    }
    let mut i: usize = 1;
    while i < line.len()
        invariant
            1 <= i <= line.len(),
            first == line@[0],
            forall|j: int| 0 <= j < i ==> #[trigger] line@[j] == line@[0],
        decreases line.len() - i,
    {
        if line[i] != first {
            return false;
        }
        i += 1;
    }
    true
}

/// The first position at or after `from` whose line is not blank, or the
/// number of lines when all the rest are blank.
pub open spec fn skip_blank(ls: Seq<Seq<char>>, from: int) -> int
    decreases ls.len() - from,
{
    if 0 <= from < ls.len() && is_blank(ls[from]) {
        skip_blank(ls, from + 1)
    } else {
        from
    }
}

/// The first position at or after `from` whose line is a delimiter, or the
/// number of lines when none of the rest is one.
pub open spec fn next_delimiter(ls: Seq<Seq<char>>, from: int) -> int
    decreases ls.len() - from,
{
    if 0 <= from < ls.len() && !is_delimiter(ls[from]) {
        next_delimiter(ls, from + 1)
    } else {
        from
    }
}

/// The two parts of a document, as character sequences.
pub struct SplitView {
    pub metadata_source: Option<Seq<char>>,
    pub body: Seq<char>,
}

/// The two parts of a document: the text between the delimiters, if the
/// document opens with front matter, and the body.
#[derive(Debug)]
pub struct SplitDocument {
    pub metadata_source: Option<String>,
    pub body: String,
}

impl View for SplitDocument {
    type V = SplitView;

    open spec fn view(&self) -> SplitView {
        SplitView {
            metadata_source: match self.metadata_source {
                Some(m) => Some(m@),
                None => None,
            },
            body: self.body@,
        }
    }
}

/// What splitting a sequence of lines yields.
///
/// With `k` the first line that is not blank: where line `k` is a delimiter,
/// the metadata runs from the line after it to the next delimiter, and the body
/// from the line after that one; with no closing delimiter the document is
/// malformed. Otherwise there is no metadata and the body starts at line `k`.
pub open spec fn split_of_lines(ls: Seq<Seq<char>>) -> Result<SplitView, ParseErrorView> {
    let k = skip_blank(ls, 0);
    if 0 <= k < ls.len() && is_delimiter(ls[k]) {
        let j = next_delimiter(ls, k + 1);
        if j < ls.len() {
            Ok(
                SplitView {
                    metadata_source: Some(join_lines(ls.subrange(k + 1, j))),
                    body: join_lines(ls.subrange(j + 1, ls.len() as int)),
                },
            )
        } else {
            Err(ParseErrorView::MalformedFrontmatter)
        }
    } else if 0 <= k <= ls.len() {
        Ok(SplitView { metadata_source: None, body: join_lines(ls.subrange(k, ls.len() as int)) })
    } else {
        Ok(SplitView { metadata_source: None, body: Seq::empty() })
    }
}

/// What splitting a raw document yields.
pub open spec fn split_spec(raw: Seq<char>) -> Result<SplitView, ParseErrorView> {
    split_of_lines(lines(raw))
}

/// The model of a split's outcome.
pub open spec fn split_result_view(r: Result<SplitDocument, ParseError>) -> Result<
    SplitView,
    ParseErrorView,
> {
    match r {
        Ok(d) => Ok(d@),
        Err(e) => Err(e@),
    }
}

/// The first non-blank line is found where a scan from `from` meets it.
pub proof fn lemma_skip_blank_is(ls: Seq<Seq<char>>, from: int, k: int)
    requires
        0 <= from <= k <= ls.len(),
        forall|i: int| from <= i < k ==> is_blank(#[trigger] ls[i]),
        k < ls.len() ==> !is_blank(ls[k]),
    ensures
        skip_blank(ls, from) == k,
    decreases k - from,
{
    if from < k {
        lemma_skip_blank_is(ls, from + 1, k);
    }
}

/// The next delimiter is found where a scan from `from` meets it.
pub proof fn lemma_next_delimiter_is(ls: Seq<Seq<char>>, from: int, j: int)
    requires
        0 <= from <= j <= ls.len(),
        forall|i: int| from <= i < j ==> !is_delimiter(#[trigger] ls[i]),
        j < ls.len() ==> is_delimiter(ls[j]),
    ensures
        next_delimiter(ls, from) == j,
    decreases j - from,
{
    if from < j {
        lemma_next_delimiter_is(ls, from + 1, j);
    }
}

/// A delimiter line is one whole line and is not blank.
pub proof fn lemma_delimiter_is_line(line: Seq<char>)
    requires
        is_delimiter(line),
    ensures
        is_line(line),
        !is_blank(line),
{
    assert(!is_space(line[0]));
    assert forall|i: int| 0 <= i < line.len() implies #[trigger] line[i] != '\n' by {
        assert(line[i] == line[0]);
        assert(is_space('\n'));
    }
    assert(line.last() == line[0]);
    assert(is_space('\r'));
}

/// Round trip: a document written as an opening delimiter, metadata lines
/// none of which is a delimiter, a closing delimiter and body lines splits
/// back into exactly that metadata text and that body text.
pub proof fn law_split_round_trip(
    opening: Seq<char>,
    metadata: Seq<Seq<char>>,
    closing: Seq<char>,
    body: Seq<Seq<char>>,
)
    requires
        is_delimiter(opening),
        is_delimiter(closing),
        all_lines(metadata),
        all_lines(body),
        forall|i: int| 0 <= i < metadata.len() ==> !is_delimiter(#[trigger] metadata[i]),
    ensures
        split_spec(
            opening.push('\n') + join_lines(metadata) + closing.push('\n') + join_lines(body),
        ) == Ok::<SplitView, ParseErrorView>(
            SplitView { metadata_source: Some(join_lines(metadata)), body: join_lines(body) },
        ),
{
    let all = seq![opening] + metadata + seq![closing] + body;
    let raw = opening.push('\n') + join_lines(metadata) + closing.push('\n') + join_lines(body);
    lemma_delimiter_is_line(opening);
    lemma_delimiter_is_line(closing);
    lemma_join_one(opening);
    lemma_join_one(closing);
    lemma_join_concat(seq![opening], metadata);
    lemma_join_concat(seq![opening] + metadata, seq![closing]);
    lemma_join_concat(seq![opening] + metadata + seq![closing], body);
    assert(join_lines(all) == raw);
    let m = metadata.len() as int;
    assert(all[0] == opening);
    assert(all[m + 1] == closing);
    assert forall|i: int| 0 <= i < all.len() implies is_line(#[trigger] all[i]) by {
        if 1 <= i <= m {
            assert(all[i] == metadata[i - 1]);
        } else if i > m + 1 {
            assert(all[i] == body[i - m - 2]);
        }
    }
    lemma_lines_of_join(all);
    lemma_skip_blank_is(all, 0, 0);
    assert forall|i: int| 1 <= i < m + 1 implies !is_delimiter(#[trigger] all[i]) by {
        assert(all[i] == metadata[i - 1]);
    }
    lemma_next_delimiter_is(all, 1, m + 1);
    assert(all.subrange(1, m + 1) =~= metadata);
    assert(all.subrange(m + 2, all.len() as int) =~= body);
}

/// Identity without front matter: a document that is some blank lines and
/// then lines of which the first is neither blank nor a delimiter has no
/// metadata, and its body is those lines unchanged.
pub proof fn law_split_without_frontmatter(blank: Seq<Seq<char>>, body: Seq<Seq<char>>)
    requires
        all_lines(blank),
        all_lines(body),
        forall|i: int| 0 <= i < blank.len() ==> is_blank(#[trigger] blank[i]),
        body.len() > 0 ==> !is_blank(body[0]) && !is_delimiter(body[0]),
    ensures
        split_spec(join_lines(blank + body)) == Ok::<SplitView, ParseErrorView>(
            SplitView { metadata_source: None, body: join_lines(body) },
        ),
{
    let all = blank + body;
    let b = blank.len() as int;
    assert forall|i: int| 0 <= i < all.len() implies is_line(#[trigger] all[i]) by {
        if i < b {
            assert(all[i] == blank[i]);
        } else {
            assert(all[i] == body[i - b]);
        }
    }
    lemma_lines_of_join(all);
    assert forall|i: int| 0 <= i < b implies is_blank(#[trigger] all[i]) by {
        assert(all[i] == blank[i]);
    }
    if body.len() > 0 {
        assert(all[b] == body[0]);
    }
    lemma_skip_blank_is(all, 0, b);
    assert(all.subrange(b, all.len() as int) =~= body);
}

/// Splits a raw document into its metadata source and its body.
///
/// Fails with `MalformedFrontmatter` exactly when the document opens with a
/// delimiter that no later delimiter closes.
pub fn split(raw: &str) -> (r: Result<SplitDocument, ParseError>)
    ensures
        split_result_view(r) == split_spec(raw@),
{
    let text = chars_of(raw);
    let ls = split_lines(&text);
    let ghost model = views(ls@);
    let n: usize = ls.len();
    let mut k: usize = 0;
    while k < n && line_is_blank(&ls[k])
        invariant
            k <= n,
            n == ls.len(),
            model == views(ls@),
            skip_blank(model, 0) == skip_blank(model, k as int),
        decreases n - k,
    {
        k += 1;
    }
    if k < n && line_is_delimiter(&ls[k]) {
        let mut j: usize = k + 1;
        while j < n && !line_is_delimiter(&ls[j])
            invariant
                k < j <= n,
                n == ls.len(),
                model == views(ls@),
                next_delimiter(model, k + 1) == next_delimiter(model, j as int),
            decreases n - j,
        {
            j += 1;
        }
        if j < n {
            let metadata = join_range(&ls, k + 1, j);
            let body = join_range(&ls, j + 1, n);
            Ok(SplitDocument { metadata_source: Some(string_of(&metadata)), body: string_of(&body) })
        } else {
            Err(ParseError::MalformedFrontmatter)
        }
    } else {
        let body = join_range(&ls, k, n);
        Ok(SplitDocument { metadata_source: None, body: string_of(&body) })
    }
}

} // verus!
