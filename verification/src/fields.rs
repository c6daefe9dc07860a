//! The `key: value` lines of a front matter block.
//!
//! Each line that is not blank holds a key, a colon and a value; the first
//! colon separates them. Keys are trimmed and put in lower case, values are
//! trimmed. Where a key occurs again, the later line wins.

use vstd::prelude::*;
use crate::error::{ParseError, ParseErrorView};
use crate::text::{
    chars_of, find_char, is_blank, lemma_find_char_is, line_is_blank, lines, lower, same_text,
    split_lines, string_of, text_view, to_lower, trim, trim_range, views,
};

verus! {

/// The key and the value that a line holds, or `None` where it has no colon.
pub open spec fn parse_line(line: Seq<char>) -> Option<(Seq<char>, Seq<char>)> {
    let i = find_char(line, ':');
    if 0 <= i < line.len() {
        Some((lower(trim(line.take(i))), trim(line.skip(i + 1))))
    } else {
        None
    }
}

/// The pairs that the lines hold, in the order of the lines and without the
/// blank ones, or `None` where a line that is not blank has no colon.
pub open spec fn parse_lines(ls: Seq<Seq<char>>) -> Option<Seq<(Seq<char>, Seq<char>)>>
    decreases ls.len(),
{
    if ls.len() == 0 {
        Some(Seq::empty())
    } else {
        match parse_lines(ls.drop_last()) {
            None => None,
            Some(before) => if is_blank(ls.last()) {
                Some(before)
            } else {
                match parse_line(ls.last()) {
                    Some(pair) => Some(before.push(pair)),
                    None => None,
                }
            },
        }
    }
}

/// The value of the last pair under `key`, or `None` where there is none.
pub open spec fn lookup(fields: Seq<(Seq<char>, Seq<char>)>, key: Seq<char>) -> Option<Seq<char>>
    decreases fields.len(),
{
    if fields.len() == 0 {
        None
    } else if fields.last().0 == key {
        Some(fields.last().1)
    } else {
        lookup(fields.drop_last(), key)
    }
}

/// The pairs of a front matter block, in the order in which they were written.
#[derive(Debug)]
pub struct Fields {
    pub entries: Vec<(String, String)>,
}

impl View for Fields {
    type V = Seq<(Seq<char>, Seq<char>)>;

    open spec fn view(&self) -> Seq<(Seq<char>, Seq<char>)> {
        self.entries@.map_values(|e: (String, String)| (e.0@, e.1@))
    }
}

/// The view of optional pairs.
pub open spec fn fields_view(f: Option<Fields>) -> Option<Seq<(Seq<char>, Seq<char>)>> {
    match f {
        Some(f) => Some(f@),
        None => None,
    }
}

/// The pairs that serde_yaml reads from a YAML mapping of texts to texts, in
/// the order of their keys, or `None` where it rejects the document.
pub uninterp spec fn yaml_pairs(source: Seq<char>) -> Option<Seq<(Seq<char>, Seq<char>)>>;

/// Calls `serde_yaml::from_str` for a `BTreeMap` of `String` to `String` and
/// lists its pairs. Trusted: the outcome is a function of the source alone.
#[verifier::external_body]
pub(crate) fn yaml_string_map(source: &str) -> (r: Option<Fields>)
    ensures
        fields_view(r) == yaml_pairs(source@),
{
    match serde_yaml::from_str::<std::collections::BTreeMap<String, String>>(source) {
        Ok(map) => Some(Fields { entries: map.into_iter().collect() }),
        Err(_) => None,
    }
}

/// What reading pairs yields, given what the reader made of the source.
pub open spec fn fields_result_spec(parsed: Option<Seq<(Seq<char>, Seq<char>)>>) -> Result<
    Seq<(Seq<char>, Seq<char>)>,
    ParseErrorView,
> {
    match parsed {
        Some(pairs) => Ok(pairs),
        None => Err(ParseErrorView::MalformedFrontmatter),
    }
}

/// The model of a pairs reading's outcome.
pub open spec fn fields_result_view(r: Result<Fields, ParseError>) -> Result<
    Seq<(Seq<char>, Seq<char>)>,
    ParseErrorView,
> {
    match r {
        Ok(f) => Ok(f@),
        Err(e) => Err(e@),
    }
}

/// Once a prefix of the lines fails to parse, so do all the lines.
pub proof fn lemma_parse_lines_prefix(ls: Seq<Seq<char>>, n: int)
    requires
        0 <= n <= ls.len(),
        parse_lines(ls.take(n)) is None,
    ensures
        parse_lines(ls) is None,
    decreases ls.len() - n,
{
    if n == ls.len() {
        assert(ls.take(n) =~= ls);
    } else {
        assert(ls.take(n + 1).drop_last() =~= ls.take(n));
        lemma_parse_lines_prefix(ls, n + 1);
    }
}

impl Fields {
    /// No pairs.
    pub fn new() -> (f: Fields)
        ensures
            f@ == Seq::<(Seq<char>, Seq<char>)>::empty(),
    {
        let f = Fields { entries: Vec::new() };
        proof {
            assert(f@ =~= Seq::<(Seq<char>, Seq<char>)>::empty());
        }
        f
    }

    /// Adds a pair after the ones already held.
    pub fn insert(&mut self, key: &str, value: &str)
        ensures
            final(self)@ == old(self)@.push((key@, value@)),
    {
        self.entries.push((key.to_owned(), value.to_owned()));
        proof {
            assert(self@ =~= old(self)@.push((key@, value@)));
        }
    }

    /// The value under `key`: that of the last pair with this key.
    pub fn get(&self, key: &str) -> (r: Option<String>)
        ensures
            text_view(r) == lookup(self@, key@),
    {
        let mut i: usize = self.entries.len();
        proof {
            assert(self@.take(i as int) =~= self@);
        }
        while i > 0
            invariant
                i <= self.entries.len(),
                lookup(self@, key@) == lookup(self@.take(i as int), key@),
            decreases i,
        {
            i -= 1;
            proof {
                assert(self@.take(i + 1).last() == self@[i as int]);
                assert(self@.take(i + 1).drop_last() =~= self@.take(i as int));
            }
            if same_text(self.entries[i].0.as_str(), key) {
                return Some(self.entries[i].1.clone());
            }
        }
        None
    }

    /// Tells whether two blocks hold the same pairs in the same order.
    pub fn same(&self, other: &Fields) -> (r: bool)
        ensures
            r == (self@ == other@),
    {
        if self.entries.len() != other.entries.len() {
            proof {
                assert(self@.len() != other@.len());
            }
            return false;
        }
        let mut i: usize = 0;
        while i < self.entries.len()
            invariant
                i <= self.entries.len(),
                self.entries.len() == other.entries.len(),
                forall|j: int| 0 <= j < i ==> self@[j] == other@[j],
            decreases self.entries.len() - i,
        {
            if self.entries[i].0 != other.entries[i].0 || self.entries[i].1 != other.entries[i].1 {
                proof {
                    assert(self@[i as int] != other@[i as int]);
                }
                return false;
            }
            proof {
                assert(self@[i as int] == other@[i as int]);
            }
            i += 1;
        }
        proof {
            assert(self@ =~= other@);
        }
        true
    }

    /// A copy of the block.
    pub fn duplicate(&self) -> (out: Fields)
        ensures
            out@ == self@,
    {
        let mut out = Fields { entries: Vec::new() };
        let mut i: usize = 0;
        proof {
            assert(out@ =~= self@.take(0));
        }
        while i < self.entries.len()
            invariant
                i <= self.entries.len(),
                out@ == self@.take(i as int),
            decreases self.entries.len() - i,
        {
            let ghost before = out@;
            out.entries.push((self.entries[i].0.clone(), self.entries[i].1.clone()));
            proof {
                assert(out@ =~= before.push(self@[i as int]));
                assert(self@.take(i + 1) =~= self@.take(i as int).push(self@[i as int]));
            }
            i += 1;
        }
        proof {
            assert(self@.take(self@.len() as int) =~= self@);
        }
        out
    }

    /// Reads the pairs of a front matter block written as `key: value` lines.
    ///
    /// Fails with `MalformedFrontmatter` exactly when a line that is not blank
    /// has no colon.
    pub fn parse(source: &str) -> (r: Result<Fields, ParseError>)
        ensures
            fields_result_view(r) == fields_result_spec(parse_lines(lines(source@))),
    {
        let text = chars_of(source);
        let ls = split_lines(&text);
        let ghost model = views(ls@);
        let mut fields = Fields { entries: Vec::new() };
        let mut i: usize = 0;
        proof {
            assert(fields@ =~= Seq::<(Seq<char>, Seq<char>)>::empty());
        }
        while i < ls.len()
            invariant
                i <= ls.len(),
                model == views(ls@),
                model == lines(source@),
                parse_lines(model.take(i as int)) == Some(fields@),
            decreases ls.len() - i,
        {
            let line = &ls[i];
            proof {
                assert(model.take(i + 1).drop_last() =~= model.take(i as int));
                assert(model.take(i + 1).last() == line@);
            }
            if !line_is_blank(line) {
                let mut k: usize = 0;
                while k < line.len() && line[k] != ':'
                    invariant
                        k <= line.len(),
                        forall|j: int| 0 <= j < k ==> line@[j] != ':',
                    decreases line.len() - k,
                {
                    k += 1;
                }
                proof {
                    lemma_find_char_is(line@, ':', k as int);
                }
                if k == line.len() {
                    proof {
                        lemma_parse_lines_prefix(model, i + 1);
                    }
                    return Err(ParseError::MalformedFrontmatter);
                }
                let key = to_lower(&trim_range(line, 0, k));
                let value = trim_range(line, k + 1, line.len());
                proof {
                    assert(line@.subrange(0, k as int) =~= line@.take(k as int));
                    assert(line@.subrange(k + 1, line.len() as int) =~= line@.skip(k + 1));
                }
                let ghost before = fields@;
                fields.entries.push((string_of(&key), string_of(&value)));
                proof {
                    assert(fields@ =~= before.push((key@, value@)));
                }
            }
            i += 1;
        }
        proof {
            assert(model.take(i as int) =~= model);
        }
        Ok(fields)
    }
}

} // verus!
