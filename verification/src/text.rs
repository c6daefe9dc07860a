//! Character-level text helpers shared by the parsers.
//!
//! Every text value is modelled as a `Seq<char>`; the executable code works on
//! `Vec<char>` buffers and converts at the boundary.

use vstd::prelude::*;

verus! {

/// Appends one character to a `String` through `String::push`, which adds the
/// character at the end and leaves the rest of the string unchanged.
#[verifier::external_body]
fn push_char(s: &mut String, c: char)
    ensures
        final(s)@ == old(s)@.push(c),
{
    s.push(c)
}

/// Collects the characters of a string slice into a buffer.
pub fn chars_of(s: &str) -> (out: Vec<char>)
    ensures
        out@ == s@,
{
    let mut out: Vec<char> = Vec::new();
    for c in it: s.chars()
        invariant
            out@ == s@.take(it.index() as int),
            it.seq() == s@,
    {
        out.push(c);
        proof {
            assert(s@.take(it.index() + 1) =~= s@.take(it.index() as int).push(c));
        }
    }
    proof {
        assert(s@.take(s@.len() as int) =~= s@);
    }
    out
}

/// Builds a `String` holding exactly the characters of a buffer.
pub fn string_of(chars: &Vec<char>) -> (out: String)
    ensures
        out@ == chars@,
{
    let mut out = String::new();
    let mut i: usize = 0;
    while i < chars.len()
        invariant
            i <= chars.len(),
            out@ == chars@.take(i as int),
        decreases chars.len() - i,
    {
        push_char(&mut out, chars[i]);
        proof {
            assert(chars@.take(i + 1) =~= chars@.take(i as int).push(chars@[i as int]));
        }
        i += 1;
    }
    proof {
        assert(chars@.take(chars@.len() as int) =~= chars@);
    }
    out
}

/// The characters that count as white space: the Unicode `White_Space` set.
pub open spec fn is_space(c: char) -> bool {
    let n = c as u32;
    ||| 0x09 <= n <= 0x0D
    ||| n == 0x20
    ||| n == 0x85
    ||| n == 0xA0
    ||| n == 0x1680
    ||| 0x2000 <= n <= 0x200A
    ||| n == 0x2028
    ||| n == 0x2029
    ||| n == 0x202F
    ||| n == 0x205F
    ||| n == 0x3000
}

/// Tells whether a character is white space.
pub fn is_whitespace(c: char) -> (b: bool)
    ensures
        b == is_space(c),
{
    let n: u32 = c as u32;
    (0x09 <= n && n <= 0x0D) || n == 0x20 || n == 0x85 || n == 0xA0 || n == 0x1680 || (0x2000 <= n
        && n <= 0x200A) || n == 0x2028 || n == 0x2029 || n == 0x202F || n == 0x205F || n == 0x3000
}

/// A line is blank when it holds nothing but white space.
pub open spec fn is_blank(line: Seq<char>) -> bool {
    forall|i: int| 0 <= i < line.len() ==> is_space(#[trigger] line[i])
}

/// Tells whether a line is blank.
pub fn line_is_blank(line: &Vec<char>) -> (b: bool)
    ensures
        b == is_blank(line@),
{
    let mut i: usize = 0;
    while i < line.len()
        invariant
            i <= line.len(),
            forall|j: int| 0 <= j < i ==> is_space(#[trigger] line@[j]),
        decreases line.len() - i,
    {
        if !is_whitespace(line[i]) {
            return false;
        }
        i += 1;
    }
    true
}

/// The position of the first `c` in `s`, or `s.len()` when there is none.
pub open spec fn find_char(s: Seq<char>, c: char) -> int
    decreases s.len(),
{
    if s.len() == 0 || s[0] == c {
        0
    } else {
        1 + find_char(s.drop_first(), c)
    }
}

/// The position of the first line feed in `s`, or `s.len()` when there is none.
pub open spec fn first_newline(s: Seq<char>) -> int {
    find_char(s, '\n')
}

/// A line without the carriage return that may precede its line feed.
pub open spec fn strip_cr(line: Seq<char>) -> Seq<char> {
    if line.len() > 0 && line.last() == '\r' {
        line.drop_last()
    } else {
        line
    }
}

/// The lines of a text. Lines end at a line feed, or at a carriage return
/// directly followed by one; the ending is not part of the line, and the last
/// line needs no ending.
pub open spec fn lines(s: Seq<char>) -> Seq<Seq<char>>
    decreases s.len(),
{
    if s.len() == 0 {
        Seq::empty()
    } else {
        let i = first_newline(s);
        if 0 <= i < s.len() {
            seq![strip_cr(s.take(i))] + lines(s.skip(i + 1))
        } else {
            seq![s]
        }
    }
}

/// The text made of the given lines, each followed by one line feed.
pub open spec fn join_lines(ls: Seq<Seq<char>>) -> Seq<char>
    decreases ls.len(),
{
    if ls.len() == 0 {
        Seq::empty()
    } else {
        join_lines(ls.drop_last()) + ls.last().push('\n')
    }
}

/// The views of a vector of character buffers.
pub open spec fn views(v: Seq<Vec<char>>) -> Seq<Seq<char>> {
    v.map_values(|line: Vec<char>| line@)
}

/// `find_char` lies within the sequence, nothing before it is `c`, and it
/// points at a `c` unless it is the length.
pub proof fn lemma_find_char_bounds(s: Seq<char>, c: char)
    ensures
        0 <= find_char(s, c) <= s.len(),
        forall|j: int| 0 <= j < find_char(s, c) ==> s[j] != c,
        find_char(s, c) < s.len() ==> s[find_char(s, c)] == c,
    decreases s.len(),
{
    if s.len() == 0 || s[0] == c {
    } else {
        let t = s.drop_first();
        lemma_find_char_bounds(t, c);
        assert forall|j: int| 0 <= j < find_char(s, c) implies s[j] != c by {
            if j > 0 {
                assert(s[j] == t[j - 1]);
            }
        }
        if find_char(s, c) < s.len() {
            assert(s[find_char(s, c)] == t[find_char(t, c)]);
        }
    }
}

/// The first `c` is found where a scan from the left meets it.
pub proof fn lemma_find_char_is(s: Seq<char>, c: char, k: int)
    requires
        0 <= k <= s.len(),
        forall|j: int| 0 <= j < k ==> s[j] != c,
        k < s.len() ==> s[k] == c,
    ensures
        find_char(s, c) == k,
{
    lemma_find_char_bounds(s, c);
    let f = find_char(s, c);
    if f < k {
        assert(s[f] == c);
    } else if f > k {
        assert(s[k] != c);
    }
}

/// Copies the characters of `text` from position `from` up to `to`.
pub fn copy_range(text: &Vec<char>, from: usize, to: usize) -> (out: Vec<char>)
    requires
        from <= to <= text.len(),
    ensures
        out@ == text@.subrange(from as int, to as int),
{
    let mut out: Vec<char> = Vec::new();
    let mut i: usize = from;
    while i < to
        invariant
            from <= i <= to <= text.len(),
            out@ == text@.subrange(from as int, i as int),
        decreases to - i,
    {
        out.push(text[i]);
        proof {
            assert(text@.subrange(from as int, i + 1) =~= text@.subrange(from as int, i as int).push(
                text@[i as int],
            ));
        }
        i += 1;
    }
    out
}

/// Appends the characters of `src` to `out`.
pub fn append_chars(out: &mut Vec<char>, src: &Vec<char>)
    ensures
        final(out)@ == old(out)@ + src@,
{
    let mut i: usize = 0;
    while i < src.len()
        invariant
            i <= src.len(),
            out@ == old(out)@ + src@.take(i as int),
        decreases src.len() - i,
    {
        out.push(src[i]);
        proof {
            assert(src@.take(i + 1) =~= src@.take(i as int).push(src@[i as int]));
            assert(old(out)@ + src@.take(i + 1) =~= (old(out)@ + src@.take(i as int)).push(
                src@[i as int],
            ));
        }
        i += 1;
    }
    proof {
        assert(src@.take(src@.len() as int) =~= src@);
    }
}

/// Splits a text into its lines.
pub fn split_lines(text: &Vec<char>) -> (out: Vec<Vec<char>>)
    ensures
        views(out@) == lines(text@),
{
    let mut out: Vec<Vec<char>> = Vec::new();
    let mut start: usize = 0;
    let mut i: usize = 0;
    proof {
        assert(text@.skip(0) =~= text@);
        assert(views(out@) + lines(text@) =~= lines(text@));
    }
    while i < text.len()
        invariant
            start <= i <= text.len(),
            lines(text@) == views(out@) + lines(text@.skip(start as int)),
            forall|j: int| start <= j < i ==> text@[j] != '\n',
        decreases text.len() - i,
    {
        if text[i] == '\n' {
            let ghost rest = text@.skip(start as int);
            let ghost before = views(out@);
            proof {
                lemma_find_char_is(rest, '\n', i - start);
                assert(rest.take(i - start) =~= text@.subrange(start as int, i as int));
                assert(rest.skip(i - start + 1) =~= text@.skip(i + 1));
            }
            let end: usize = if i > start && text[i - 1] == '\r' {
                i - 1
            } else {
                i
            };
            let line = copy_range(text, start, end);
            proof {
                let whole = text@.subrange(start as int, i as int);
                if i > start && text@[i - 1] == '\r' {
                    assert(whole.last() == '\r');
                    assert(whole.drop_last() =~= text@.subrange(start as int, end as int));
                }
                assert(line@ == strip_cr(whole));
            }
            out.push(line);
            proof {
                assert(views(out@) =~= before + seq![line@]);
                assert(before + (seq![line@] + lines(text@.skip(i + 1))) =~= (before + seq![
                    line@,
                ]) + lines(text@.skip(i + 1)));
            }
            start = i + 1;
        }
        i += 1;
    }
    if start < text.len() {
        let ghost rest = text@.skip(start as int);
        let ghost before = views(out@);
        proof {
            lemma_find_char_is(rest, '\n', rest.len() as int);
            assert(rest =~= text@.subrange(start as int, text.len() as int));
        }
        let line = copy_range(text, start, text.len());
        out.push(line);
        proof {
            assert(views(out@) =~= before + seq![line@]);
        }
    } else {
        proof {
            assert(text@.skip(start as int).len() == 0);
            assert(views(out@) + lines(text@.skip(start as int)) =~= views(out@));
        }
    }
    out
}

/// Joins the lines from position `from` up to `to`, ending each with a line feed.
pub fn join_range(lines: &Vec<Vec<char>>, from: usize, to: usize) -> (out: Vec<char>)
    requires
        from <= to <= lines.len(),
    ensures
        out@ == join_lines(views(lines@).subrange(from as int, to as int)),
{
    let mut out: Vec<char> = Vec::new();
    let mut k: usize = from;
    while k < to
        invariant
            from <= k <= to <= lines.len(),
            out@ == join_lines(views(lines@).subrange(from as int, k as int)),
        decreases to - k,
    {
        append_chars(&mut out, &lines[k]);
        out.push('\n');
        proof {
            let next = views(lines@).subrange(from as int, k + 1);
            assert(next.drop_last() =~= views(lines@).subrange(from as int, k as int));
            assert(next.last() == lines@[k as int]@);
        }
        k += 1;
    }
    out
}

/// A sequence of characters that is one whole line: it holds no line feed and
/// does not end in a carriage return.
pub open spec fn is_line(line: Seq<char>) -> bool {
    &&& forall|i: int| 0 <= i < line.len() ==> #[trigger] line[i] != '\n'
    &&& line.len() > 0 ==> line.last() != '\r'
}

/// Every member of `ls` is one whole line.
pub open spec fn all_lines(ls: Seq<Seq<char>>) -> bool {
    forall|i: int| 0 <= i < ls.len() ==> is_line(#[trigger] ls[i])
}

/// Joining distributes over concatenation.
pub proof fn lemma_join_concat(a: Seq<Seq<char>>, b: Seq<Seq<char>>)
    ensures
        join_lines(a + b) == join_lines(a) + join_lines(b),
    decreases b.len(),
{
    if b.len() == 0 {
        assert(a + b =~= a);
        assert(join_lines(a) + join_lines(b) =~= join_lines(a));
    } else {
        lemma_join_concat(a, b.drop_last());
        assert((a + b).drop_last() =~= a + b.drop_last());
        assert((a + b).last() == b.last());
        assert(join_lines(a + b) =~= join_lines(a) + join_lines(b));
    }
}

/// The join of a single line is that line and a line feed.
pub proof fn lemma_join_one(line: Seq<char>)
    ensures
        join_lines(seq![line]) == line.push('\n'),
{
    let one = seq![line];
    assert(one.drop_last() =~= Seq::<Seq<char>>::empty());
    assert(join_lines(one.drop_last()) =~= Seq::<char>::empty());
    assert(join_lines(one) =~= line.push('\n'));
}

/// A whole line followed by a line feed and more text is the first line of
/// the result.
pub proof fn lemma_lines_cons(line: Seq<char>, rest: Seq<char>)
    requires
        is_line(line),
    ensures
        lines(line.push('\n') + rest) == seq![line] + lines(rest),
{
    let s = line.push('\n') + rest;
    let k = line.len() as int;
    assert(s[k] == '\n');
    assert forall|j: int| 0 <= j < k implies s[j] != '\n' by {
        assert(s[j] == line[j]);
    }
    lemma_find_char_is(s, '\n', k);
    assert(s.take(k) =~= line);
    assert(s.skip(k + 1) =~= rest);
}

/// Splitting the join of whole lines gives the lines back.
pub proof fn lemma_lines_of_join(ls: Seq<Seq<char>>)
    requires
        all_lines(ls),
    ensures
        lines(join_lines(ls)) == ls,
    decreases ls.len(),
{
    if ls.len() == 0 {
        assert(lines(join_lines(ls)) =~= ls);
    } else {
        let head = ls[0];
        let tail = ls.drop_first();
        assert(ls =~= seq![head] + tail);
        lemma_join_concat(seq![head], tail);
        lemma_join_one(head);
        assert(all_lines(tail)) by {
            assert forall|i: int| 0 <= i < tail.len() implies is_line(#[trigger] tail[i]) by {
                assert(tail[i] == ls[i + 1]);
            }
        }
        lemma_lines_of_join(tail);
        lemma_lines_cons(head, join_lines(tail));
    }
}

/// The first position at or after `from` that holds no white space, or the
/// length when only white space follows.
pub open spec fn skip_spaces(s: Seq<char>, from: int) -> int
    decreases s.len() - from,
{
    if 0 <= from < s.len() && is_space(s[from]) {
        skip_spaces(s, from + 1)
    } else {
        from
    }
}

/// The end of `s` once the white space that ends it is left out, never going
/// below `low`.
pub open spec fn back_spaces(s: Seq<char>, low: int, to: int) -> int
    decreases to - low,
{
    if low < to <= s.len() && is_space(s[to - 1]) {
        back_spaces(s, low, to - 1)
    } else {
        to
    }
}

/// The text without the white space that starts and ends it.
pub open spec fn trim(s: Seq<char>) -> Seq<char> {
    let a = skip_spaces(s, 0);
    let b = back_spaces(s, a, s.len() as int);
    s.subrange(a, b)
}

/// Copies the part of `text` between `from` and `to` without the white space
/// that starts and ends it.
pub fn trim_range(text: &Vec<char>, from: usize, to: usize) -> (out: Vec<char>)
    requires
        from <= to <= text.len(),
    ensures
        out@ == trim(text@.subrange(from as int, to as int)),
{
    let ghost part = text@.subrange(from as int, to as int);
    let mut a: usize = from;
    while a < to && is_whitespace(text[a])
        invariant
            from <= a <= to <= text.len(),
            part == text@.subrange(from as int, to as int),
            skip_spaces(part, 0) == skip_spaces(part, a - from),
        decreases to - a,
    {
        a += 1;
    }
    let mut b: usize = to;
    while b > a && is_whitespace(text[b - 1])
        invariant
            from <= a <= b <= to <= text.len(),
            part == text@.subrange(from as int, to as int),
            back_spaces(part, a - from, part.len() as int) == back_spaces(part, a - from, b - from),
        decreases b - a,
    {
        b -= 1;
    }
    let out = copy_range(text, a, b);
    proof {
        assert(part.subrange(a - from, b - from) =~= text@.subrange(a as int, b as int));
    }
    out
}

/// The lower-case form of an ASCII capital; any other character unchanged.
pub open spec fn lower_char(c: char) -> char {
    if 'A' <= c <= 'Z' {
        ((c as u8 + 32) as u8) as char
    } else {
        c
    }
}

/// The text with its ASCII capitals in lower case.
pub open spec fn lower(s: Seq<char>) -> Seq<char> {
    s.map_values(|c: char| lower_char(c))
}

/// Puts an ASCII capital in lower case.
pub fn to_lower_char(c: char) -> (r: char)
    ensures
        r == lower_char(c),
{
    if 'A' <= c && c <= 'Z' {
        let b: u8 = c as u8;
        (b + 32) as char
    } else {
        c
    }
}

/// Puts the ASCII capitals of a text in lower case.
pub fn to_lower(text: &Vec<char>) -> (out: Vec<char>)
    ensures
        out@ == lower(text@),
{
    let mut out: Vec<char> = Vec::new();
    let mut i: usize = 0;
    while i < text.len()
        invariant
            i <= text.len(),
            out@ == lower(text@.take(i as int)),
        decreases text.len() - i,
    {
        out.push(to_lower_char(text[i]));
        proof {
            assert(lower(text@.take(i + 1)) =~= lower(text@.take(i as int)).push(
                lower_char(text@[i as int]),
            ));
        }
        i += 1;
    }
    proof {
        assert(text@.take(text@.len() as int) =~= text@);
    }
    out
}

/// Tells whether two buffers hold the same characters.
pub fn same_chars(a: &Vec<char>, b: &Vec<char>) -> (r: bool)
    ensures
        r == (a@ == b@),
{
    if a.len() != b.len() {
        return false;
    }
    let mut i: usize = 0;
    while i < a.len()
        invariant
            i <= a.len(),
            a.len() == b.len(),
            forall|j: int| 0 <= j < i ==> a@[j] == b@[j],
        decreases a.len() - i,
    {
        if a[i] != b[i] {
            return false;
        }
        i += 1;
    }
    proof {
        assert(a@ =~= b@);
    }
    true
}

/// Tells whether two texts hold the same characters.
pub fn same_text(a: &str, b: &str) -> (r: bool)
    ensures
        r == (a@ == b@),
{
    let x = chars_of(a);
    let y = chars_of(b);
    same_chars(&x, &y)
}

/// The pieces of `s` between occurrences of `c`: one more piece than there
/// are occurrences, some of them possibly empty.
pub open spec fn split_on(s: Seq<char>, c: char) -> Seq<Seq<char>>
    decreases s.len(),
{
    if s.len() == 0 {
        seq![Seq::empty()]
    } else {
        let before = split_on(s.drop_last(), c);
        if s.last() == c {
            before.push(Seq::empty())
        } else {
            before.drop_last().push(before.last().push(s.last()))
        }
    }
}

/// Splits a text at every occurrence of `c`.
pub fn split_chars(text: &Vec<char>, c: char) -> (out: Vec<Vec<char>>)
    ensures
        views(out@) == split_on(text@, c),
{
    let mut done: Vec<Vec<char>> = Vec::new();
    let mut piece: Vec<char> = Vec::new();
    let mut i: usize = 0;
    proof {
        assert(views(done@).push(piece@) =~= seq![Seq::<char>::empty()]);
    }
    while i < text.len()
        invariant
            i <= text.len(),
            split_on(text@.take(i as int), c) == views(done@).push(piece@),
        decreases text.len() - i,
    {
        let ch = text[i];
        let ghost before = views(done@).push(piece@);
        proof {
            assert(text@.take(i + 1).drop_last() =~= text@.take(i as int));
            assert(text@.take(i + 1).last() == ch);
        }
        if ch == c {
            done.push(piece);
            piece = Vec::new();
            proof {
                assert(views(done@) =~= before);
                assert(views(done@).push(piece@) =~= before.push(Seq::empty()));
            }
        } else {
            piece.push(ch);
            proof {
                assert(views(done@).push(piece@) =~= before.drop_last().push(
                    before.last().push(ch),
                ));
            }
        }
        i += 1;
    }
    proof {
        assert(text@.take(i as int) =~= text@);
    }
    let ghost before = views(done@).push(piece@);
    done.push(piece);
    proof {
        assert(views(done@) =~= before);
    }
    done
}

/// The views of a vector of texts.
pub open spec fn texts(v: Seq<String>) -> Seq<Seq<char>> {
    v.map_values(|t: String| t@)
}

/// The view of an optional text.
pub open spec fn text_view(t: Option<String>) -> Option<Seq<char>> {
    match t {
        Some(s) => Some(s@),
        None => None,
    }
}

/// Tells whether two optional texts are both absent or hold the same
/// characters.
pub fn same_option_text(a: &Option<String>, b: &Option<String>) -> (r: bool)
    ensures
        r == (text_view(*a) == text_view(*b)),
{
    match (a, b) {
        (None, None) => true,
        (Some(x), Some(y)) => *x == *y,
        _ => false,
    }
}

/// Tells whether two vectors hold the same texts in the same order.
pub fn same_texts(a: &Vec<String>, b: &Vec<String>) -> (r: bool)
    ensures
        r == (texts(a@) == texts(b@)),
{
    if a.len() != b.len() {
        proof {
            assert(texts(a@).len() != texts(b@).len());
        }
        return false;
    }
    let mut i: usize = 0;
    while i < a.len()
        invariant
            i <= a.len(),
            a.len() == b.len(),
            forall|j: int| 0 <= j < i ==> a@[j]@ == b@[j]@,
        decreases a.len() - i,
    {
        if a[i] != b[i] {
            proof {
                assert(texts(a@)[i as int] != texts(b@)[i as int]);
            }
            return false;
        }
        i += 1;
    }
    proof {
        assert(texts(a@) =~= texts(b@));
    }
    true
}

/// Copies an optional text.
pub fn copy_option_text(t: &Option<String>) -> (out: Option<String>)
    ensures
        text_view(out) == text_view(*t),
{
    match t {
        Some(s) => Some(s.clone()),
        None => None,
    }
}

/// Copies a vector of texts.
pub fn copy_texts(v: &Vec<String>) -> (out: Vec<String>)
    ensures
        texts(out@) == texts(v@),
{
    let mut out: Vec<String> = Vec::new();
    let mut i: usize = 0;
    while i < v.len()
        invariant
            i <= v.len(),
            texts(out@) == texts(v@).take(i as int),
        decreases v.len() - i,
    {
        let ghost before = texts(out@);
        out.push(v[i].clone());
        proof {
            assert(texts(out@) =~= before.push(v@[i as int]@));
            assert(texts(v@).take(i + 1) =~= texts(v@).take(i as int).push(v@[i as int]@));
        }
        i += 1;
    }
    proof {
        assert(texts(v@).take(v@.len() as int) =~= texts(v@));
    }
    out
}

/// `token` stands in `s` at position `i`.
pub open spec fn matches_at(s: Seq<char>, token: Seq<char>, i: int) -> bool {
    0 <= i && i + token.len() <= s.len() && s.subrange(i, i + token.len()) == token
}

/// The sections of `s` from `start` on, given that no section end lies
/// between `start` and `i`: a section ends where `token` stands, and the next
/// one starts behind the token.
pub open spec fn sections_from(s: Seq<char>, token: Seq<char>, start: int, i: int) -> Seq<
    Seq<char>,
>
    decreases s.len() - i,
{
    if token.len() == 0 || i < start || start < 0 || i + token.len() > s.len() {
        seq![s.subrange(start, s.len() as int)]
    } else if matches_at(s, token, i) {
        seq![s.subrange(start, i)] + sections_from(s, token, i + token.len(), i + token.len())
    } else {
        sections_from(s, token, start, i + 1)
    }
}

/// The sections of `s`: what lies between the occurrences of `token`, taken
/// from the left and without overlap.
pub open spec fn sections(s: Seq<char>, token: Seq<char>) -> Seq<Seq<char>> {
    sections_from(s, token, 0, 0)
}

/// Tells whether `token` stands in `text` at position `i`.
pub fn token_at(text: &Vec<char>, token: &Vec<char>, i: usize) -> (r: bool)
    requires
        i + token.len() <= text.len(),
    ensures
        r == matches_at(text@, token@, i as int),
{
    let mut k: usize = 0;
    while k < token.len()
        invariant
            k <= token.len(),
            i + token.len() <= text.len(),
            forall|j: int| 0 <= j < k ==> text@[i + j] == token@[j],
        decreases token.len() - k,
    {
        if text[i + k] != token[k] {
            proof {
                assert(text@.subrange(i as int, i + token.len())[k as int] != token@[k as int]);
            }
            return false;
        }
        k += 1;
    }
    proof {
        assert(text@.subrange(i as int, i + token.len()) =~= token@);
    }
    true
}

/// Splits a text into its sections.
pub fn split_sections(text: &Vec<char>, token: &Vec<char>) -> (out: Vec<Vec<char>>)
    ensures
        views(out@) == sections(text@, token@),
{
    let mut out: Vec<Vec<char>> = Vec::new();
    let n: usize = text.len();
    let t: usize = token.len();
    let mut start: usize = 0;
    let mut i: usize = 0;
    proof {
        assert(views(out@) + sections_from(text@, token@, 0, 0) =~= sections(text@, token@));
    }
    while t > 0 && t <= n && i <= n - t
        invariant
            start <= i <= n,
            n == text.len(),
            t == token.len(),
            sections(text@, token@) == views(out@) + sections_from(
                text@,
                token@,
                start as int,
                i as int,
            ),
        decreases n - i,
    {
        if token_at(text, token, i) {
            let ghost before = views(out@);
            let ghost rest = sections_from(text@, token@, i + t, i + t);
            let piece = copy_range(text, start, i);
            out.push(piece);
            proof {
                assert(views(out@) =~= before + seq![piece@]);
                assert(before + (seq![piece@] + rest) =~= (before + seq![piece@]) + rest);
            }
            start = i + t;
            i = i + t;
        } else {
            i += 1;
        }
    }
    let ghost before = views(out@);
    let piece = copy_range(text, start, n);
    out.push(piece);
    proof {
        assert(views(out@) =~= before + seq![piece@]);
    }
    out
}

/// The given texts, one after the other.
pub open spec fn concat_all(parts: Seq<Seq<char>>) -> Seq<char>
    decreases parts.len(),
{
    if parts.len() == 0 {
        Seq::empty()
    } else {
        concat_all(parts.drop_last()) + parts.last()
    }
}

/// Puts the given texts one after the other.
pub fn concat_texts(parts: &Vec<String>) -> (out: String)
    ensures
        out@ == concat_all(texts(parts@)),
{
    let mut buffer: Vec<char> = Vec::new();
    let mut i: usize = 0;
    while i < parts.len()
        invariant
            i <= parts.len(),
            buffer@ == concat_all(texts(parts@).take(i as int)),
        decreases parts.len() - i,
    {
        let part = chars_of(parts[i].as_str());
        append_chars(&mut buffer, &part);
        proof {
            assert(texts(parts@).take(i + 1).drop_last() =~= texts(parts@).take(i as int));
            assert(texts(parts@).take(i + 1).last() == part@);
        }
        i += 1;
    }
    proof {
        assert(texts(parts@).take(i as int) =~= texts(parts@));
    }
    string_of(&buffer)
}

} // verus!
