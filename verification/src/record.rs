//! The record of a front matter block: its keys, each with a text or with
//! named attributes.
//!
//! A block written as `key: value` lines holds texts only. A block written
//! as a YAML mapping may give a key a mapping of its own, one level deep,
//! as the cover of a post does. Where a key occurs again, the later
//! value wins.

use vstd::prelude::*;
use crate::error::{ParseError, ParseErrorView};
use crate::fields::{fields_view, lookup, parse_lines, yaml_pairs, yaml_string_map, Fields};
use crate::text::{lines, same_text, text_view};

verus! {

/// The value of a key: a text, or attributes with texts of their own.
#[derive(Debug)]
pub enum FieldValue {
    Text(String),
    Attributes(Fields),
}

/// The model of a `FieldValue`.
pub enum FieldValueView {
    Text(Seq<char>),
    Attributes(Seq<(Seq<char>, Seq<char>)>),
}

impl View for FieldValue {
    type V = FieldValueView;

    open spec fn view(&self) -> FieldValueView {
        match self {
            FieldValue::Text(t) => FieldValueView::Text(t@),
            FieldValue::Attributes(a) => FieldValueView::Attributes(a@),
        }
    }
}

/// The view of an optional value.
pub open spec fn value_view(v: Option<FieldValue>) -> Option<FieldValueView> {
    match v {
        Some(v) => Some(v@),
        None => None,
    }
}

/// The value of the last pair under `key`, or `None` where there is none.
pub open spec fn find(record: Seq<(Seq<char>, FieldValueView)>, key: Seq<char>) -> Option<
    FieldValueView,
>
    decreases record.len(),
{
    if record.len() == 0 {
        None
    } else if record.last().0 == key {
        Some(record.last().1)
    } else {
        find(record.drop_last(), key)
    }
}

/// The text under `key`, or `None` where the key is absent or holds
/// attributes.
pub open spec fn text_at(record: Seq<(Seq<char>, FieldValueView)>, key: Seq<char>) -> Option<
    Seq<char>,
> {
    match find(record, key) {
        Some(FieldValueView::Text(t)) => Some(t),
        _ => None,
    }
}

/// The key holds attributes, not a text.
pub open spec fn is_mapping_at(record: Seq<(Seq<char>, FieldValueView)>, key: Seq<char>) -> bool {
    find(record, key) matches Some(FieldValueView::Attributes(_))
}

/// The record of a block of text pairs: every value a text.
pub open spec fn lift(fields: Seq<(Seq<char>, Seq<char>)>) -> Seq<(Seq<char>, FieldValueView)> {
    fields.map_values(|pair: (Seq<char>, Seq<char>)| (pair.0, FieldValueView::Text(pair.1)))
}

/// A text pair lifted into a record is found as a text, and only so.
pub proof fn lemma_find_in_lift(fields: Seq<(Seq<char>, Seq<char>)>, key: Seq<char>)
    ensures
        text_at(lift(fields), key) == lookup(fields, key),
        !is_mapping_at(lift(fields), key),
        find(lift(fields), key) is None <==> lookup(fields, key) is None,
    decreases fields.len(),
{
    if fields.len() > 0 {
        assert(lift(fields).drop_last() =~= lift(fields.drop_last()));
        lemma_find_in_lift(fields.drop_last(), key);
    }
}

/// The keys of the top-level mapping that serde_yaml reads from a YAML
/// document, in the order of the keys, each with its value written out again
/// as a YAML document of its own; `None` where serde_yaml rejects the
/// document or the writing.
pub uninterp spec fn yaml_values(source: Seq<char>) -> Option<Seq<(Seq<char>, Seq<char>)>>;

/// What serde_yaml reads from a YAML document as an optional text: no text
/// for a null, the text of a scalar, or `None` where the document is neither.
pub uninterp spec fn yaml_text(source: Seq<char>) -> Option<Option<Seq<char>>>;

/// The view of a scalar reading's outcome.
pub open spec fn scalar_view(r: Option<Option<String>>) -> Option<Option<Seq<char>>> {
    match r {
        Some(t) => Some(text_view(t)),
        None => None,
    }
}

/// Calls `serde_yaml::from_str` for a `BTreeMap` of `String` to
/// `serde_yaml::Value`, and writes each value with `serde_yaml::to_string`.
/// Trusted: the outcome is a function of the source alone.
#[verifier::external_body]
fn yaml_top_level(source: &str) -> (r: Option<Fields>)
    ensures
        fields_view(r) == yaml_values(source@),
{
    let map = match serde_yaml::from_str::<std::collections::BTreeMap<String, serde_yaml::Value>>(
        source,
    ) {
        Ok(map) => map,
        Err(_) => return None,
    };
    let mut entries = Vec::new();
    for (key, value) in map {
        match serde_yaml::to_string(&value) {
            Ok(text) => entries.push((key, text)),
            Err(_) => return None,
        }
    }
    Some(Fields { entries })
}

/// Calls `serde_yaml::from_str` for an `Option` of `String`. Trusted: the
/// outcome is a function of the source alone.
#[verifier::external_body]
fn yaml_scalar(source: &str) -> (r: Option<Option<String>>)
    ensures
        scalar_view(r) == yaml_text(source@),
{
    match serde_yaml::from_str::<Option<String>>(source) {
        Ok(text) => Some(text),
        Err(_) => None,
    }
}

/// The value that a YAML value stands for, given what it reads as: nothing
/// for a null, a text for a scalar, attributes for a mapping of texts; `None`
/// where it is none of these.
pub open spec fn shape_spec(
    text: Option<Option<Seq<char>>>,
    pairs: Option<Seq<(Seq<char>, Seq<char>)>>,
) -> Option<Option<FieldValueView>> {
    match text {
        Some(None) => Some(None),
        Some(Some(t)) => Some(Some(FieldValueView::Text(t))),
        None => match pairs {
            Some(p) => Some(Some(FieldValueView::Attributes(p))),
            None => None,
        },
    }
}

/// The view of a shaping's outcome.
pub open spec fn shape_view(r: Option<Option<FieldValue>>) -> Option<Option<FieldValueView>> {
    match r {
        Some(v) => Some(value_view(v)),
        None => None,
    }
}

/// The record of the given keys and YAML values, in their order: keys with a
/// null left out, `None` where a value is neither a scalar nor a mapping of
/// texts.
pub open spec fn shape_all(values: Seq<(Seq<char>, Seq<char>)>) -> Option<
    Seq<(Seq<char>, FieldValueView)>,
>
    decreases values.len(),
{
    if values.len() == 0 {
        Some(Seq::empty())
    } else {
        match shape_all(values.drop_last()) {
            None => None,
            Some(before) => match shape_spec(
                yaml_text(values.last().1),
                yaml_pairs(values.last().1),
            ) {
                None => None,
                Some(None) => Some(before),
                Some(Some(value)) => Some(before.push((values.last().0, value))),
            },
        }
    }
}

/// The record that a YAML block holds, or `None` where it is malformed.
pub open spec fn yaml_record(source: Seq<char>) -> Option<Seq<(Seq<char>, FieldValueView)>> {
    match yaml_values(source) {
        Some(values) => shape_all(values),
        None => None,
    }
}

/// The record that a block of `key: value` lines holds, or `None` where it
/// is malformed.
pub open spec fn lines_record(source: Seq<char>) -> Option<Seq<(Seq<char>, FieldValueView)>> {
    match parse_lines(lines(source)) {
        Some(fields) => Some(lift(fields)),
        None => None,
    }
}

/// Once a prefix of the values has no record, neither have all of them.
proof fn lemma_shape_all_prefix(values: Seq<(Seq<char>, Seq<char>)>, n: int)
    requires
        0 <= n <= values.len(),
        shape_all(values.take(n)) is None,
    ensures
        shape_all(values) is None,
    decreases values.len() - n,
{
    if n == values.len() {
        assert(values.take(n) =~= values);
    } else {
        assert(values.take(n + 1).drop_last() =~= values.take(n));
        lemma_shape_all_prefix(values, n + 1);
    }
}

impl FieldValue {
    /// The value that a YAML value stands for, given what it reads as.
    pub fn shape(text: Option<Option<String>>, pairs: Option<Fields>) -> (r: Option<
        Option<FieldValue>,
    >)
        ensures
            shape_view(r) == shape_spec(scalar_view(text), fields_view(pairs)),
    {
        match text {
            Some(None) => Some(None),
            Some(Some(t)) => Some(Some(FieldValue::Text(t))),
            None => match pairs {
                Some(p) => Some(Some(FieldValue::Attributes(p))),
                None => None,
            },
        }
    }

    /// A copy of the value.
    pub fn duplicate(&self) -> (out: FieldValue)
        ensures
            out@ == self@,
    {
        match self {
            FieldValue::Text(t) => FieldValue::Text(t.clone()),
            FieldValue::Attributes(a) => FieldValue::Attributes(a.duplicate()),
        }
    }
}

/// The keys of a front matter block with their values, in the order in which
/// they were read.
#[derive(Debug)]
pub struct Record {
    pub entries: Vec<(String, FieldValue)>,
}

impl View for Record {
    type V = Seq<(Seq<char>, FieldValueView)>;

    open spec fn view(&self) -> Seq<(Seq<char>, FieldValueView)> {
        self.entries@.map_values(|e: (String, FieldValue)| (e.0@, e.1@))
    }
}

/// The view of an optional record.
pub open spec fn record_view(r: Option<Record>) -> Option<Seq<(Seq<char>, FieldValueView)>> {
    match r {
        Some(r) => Some(r@),
        None => None,
    }
}

/// What reading a record yields, given what the reader made of the source.
pub open spec fn record_result_spec(parsed: Option<Seq<(Seq<char>, FieldValueView)>>) -> Result<
    Seq<(Seq<char>, FieldValueView)>,
    ParseErrorView,
> {
    match parsed {
        Some(record) => Ok(record),
        None => Err(ParseErrorView::MalformedFrontmatter),
    }
}

/// The model of a record reading's outcome.
pub open spec fn record_result_view(r: Result<Record, ParseError>) -> Result<
    Seq<(Seq<char>, FieldValueView)>,
    ParseErrorView,
> {
    match r {
        Ok(record) => Ok(record@),
        Err(e) => Err(e@),
    }
}

impl Record {
    /// No keys.
    pub fn new() -> (r: Record)
        ensures
            r@ == Seq::<(Seq<char>, FieldValueView)>::empty(),
    {
        let r = Record { entries: Vec::new() };
        proof {
            assert(r@ =~= Seq::<(Seq<char>, FieldValueView)>::empty());
        }
        r
    }

    /// Adds a key with its value after the ones already held.
    pub fn insert(&mut self, key: &str, value: FieldValue)
        ensures
            final(self)@ == old(self)@.push((key@, value@)),
    {
        self.entries.push((key.to_owned(), value));
        proof {
            assert(self@ =~= old(self)@.push((key@, value@)));
        }
    }

    /// The value under `key`: that of the last pair with this key.
    pub fn value(&self, key: &str) -> (r: Option<FieldValue>)
        ensures
            value_view(r) == find(self@, key@),
    {
        let mut i: usize = self.entries.len();
        proof {
            assert(self@.take(i as int) =~= self@);
        }
        while i > 0
            invariant
                i <= self.entries.len(),
                find(self@, key@) == find(self@.take(i as int), key@),
            decreases i,
        {
            i -= 1;
            proof {
                assert(self@.take(i + 1).last() == self@[i as int]);
                assert(self@.take(i + 1).drop_last() =~= self@.take(i as int));
            }
            if same_text(self.entries[i].0.as_str(), key) {
                return Some(self.entries[i].1.duplicate());
            }
        }
        None
    }

    /// The text under `key`, or `None` where the key is absent or holds
    /// attributes.
    pub fn get(&self, key: &str) -> (r: Option<String>)
        ensures
            text_view(r) == text_at(self@, key@),
    {
        match self.value(key) {
            Some(FieldValue::Text(t)) => Some(t),
            _ => None,
        }
    }

    /// Tells whether `key` holds attributes.
    pub fn has_mapping(&self, key: &str) -> (r: bool)
        ensures
            r == is_mapping_at(self@, key@),
    {
        match self.value(key) {
            Some(FieldValue::Attributes(_)) => true,
            _ => false,
        }
    }

    /// The record of a block of text pairs.
    pub fn from_fields(fields: Fields) -> (r: Record)
        ensures
            r@ == lift(fields@),
    {
        let ghost all = fields.entries@;
        let ghost model = fields@;
        let mut record = Record { entries: Vec::new() };
        proof {
            assert(record@ =~= lift(model.take(0)));
        }
        for entry in it: fields.entries
            invariant
                it.seq() == all,
                model == all.map_values(|e: (String, String)| (e.0@, e.1@)),
                record@ == lift(model.take(it.index() as int)),
        {
            let ghost before = record@;
            let ghost n = it.index() as int;
            record.entries.push((entry.0, FieldValue::Text(entry.1)));
            proof {
                assert(record@ =~= before.push((entry.0@, FieldValueView::Text(entry.1@))));
                assert(lift(model.take(n + 1)) =~= lift(model.take(n)).push(
                    (entry.0@, FieldValueView::Text(entry.1@)),
                ));
            }
        }
        proof {
            assert(model.take(all.len() as int) =~= model);
        }
        record
    }

    /// Reads the record of a front matter block written as `key: value`
    /// lines.
    ///
    /// Fails with `MalformedFrontmatter` exactly when a line that is not blank
    /// has no colon.
    pub fn parse(source: &str) -> (r: Result<Record, ParseError>)
        ensures
            record_result_view(r) == record_result_spec(lines_record(source@)),
    {
        match Fields::parse(source) {
            Ok(fields) => Ok(Record::from_fields(fields)),
            Err(e) => Err(e),
        }
    }

    /// Reads the record of a front matter block written as a YAML mapping.
    /// Keys are taken as written; a key with a null has no value. A text is
    /// the scalar as YAML understands it, not as it was written: a scalar
    /// that reads as a number or a truth value comes out in YAML's plain
    /// form, so that `0x10` gives `16` and `True` gives `true`. Quote a
    /// scalar to keep its letters.
    ///
    /// Fails with `MalformedFrontmatter` exactly when the YAML reader rejects
    /// the block, or a value is neither a scalar nor a mapping of texts.
    pub fn from_yaml(source: &str) -> (r: Result<Record, ParseError>)
        ensures
            record_result_view(r) == record_result_spec(yaml_record(source@)),
    {
        let top = match yaml_top_level(source) {
            Some(top) => top,
            None => {
                return Err(ParseError::MalformedFrontmatter);
            },
        };
        let ghost values = top@;
        let mut record = Record { entries: Vec::new() };
        let mut i: usize = 0;
        proof {
            assert(record@ =~= Seq::<(Seq<char>, FieldValueView)>::empty());
        }
        while i < top.entries.len()
            invariant
                i <= top.entries.len(),
                values == top@,
                yaml_values(source@) == Some(values),
                shape_all(values.take(i as int)) == Some(record@),
            decreases top.entries.len() - i,
        {
            let value_source = top.entries[i].1.as_str();
            proof {
                assert(values.take(i + 1).drop_last() =~= values.take(i as int));
                assert(values.take(i + 1).last() == values[i as int]);
                assert(values[i as int] == (top.entries@[i as int].0@, top.entries@[i as int].1@));
            }
            let shaped = FieldValue::shape(yaml_scalar(value_source), yaml_string_map(value_source));
            match shaped {
                None => {
                    proof {
                        lemma_shape_all_prefix(values, i + 1);
                    }
                    return Err(ParseError::MalformedFrontmatter);
                },
                Some(None) => {},
                Some(Some(value)) => {
                    let ghost before = record@;
                    record.entries.push((top.entries[i].0.clone(), value));
                    proof {
                        assert(record@ =~= before.push((values[i as int].0, value@)));
                    }
                },
            }
            i += 1;
        }
        proof {
            assert(values.take(i as int) =~= values);
        }
        Ok(record)
    }
}

} // verus!
