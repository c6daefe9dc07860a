//! Redirects from an old address of a page to its new one.

use vstd::prelude::*;
use vstd::std_specs::cmp::PartialEqSpecImpl;
use crate::text::{chars_of, copy_range, string_of, text_view};

verus! {

/// A redirect: the absolute path that is asked for, and where it leads.
#[derive(Debug)]
pub struct RedirectPage {
    pub from: String,
    pub to: String,
}

impl PartialEq for RedirectPage {
    /// Two redirects are the same when they start at the same path.
    fn eq(&self, other: &Self) -> (r: bool) {
        self.from == other.from
    }
}

impl PartialEqSpecImpl for RedirectPage {
    open spec fn obeys_eq_spec() -> bool {
        true
    }

    open spec fn eq_spec(&self, other: &Self) -> bool {
        self.from@ == other.from@
    }
}

/// The path without the slash that starts it, or `None` where it starts
/// with none.
pub open spec fn relative_spec(path: Seq<char>) -> Option<Seq<char>> {
    if path.len() > 0 && path[0] == '/' {
        Some(path.skip(1))
    } else {
        None
    }
}

impl RedirectPage {
    /// A redirect from `from` to `to`.
    pub fn new(from: &str, to: &str) -> (page: RedirectPage)
        ensures
            page.from@ == from@,
            page.to@ == to@,
    {
        RedirectPage { from: from.to_owned(), to: to.to_owned() }
    }

    /// Where the redirect is written below the output directory: its start
    /// without the leading slash, or `None` where the start is not absolute.
    pub fn output_path(&self) -> (r: Option<String>)
        ensures
            text_view(r) == relative_spec(self.from@),
    {
        let text = chars_of(self.from.as_str());
        if text.len() > 0 && text[0] == '/' {
            let rest = copy_range(&text, 1, text.len());
            proof {
                assert(text@.subrange(1, text.len() as int) =~= text@.skip(1));
            }
            Some(string_of(&rest))
        } else {
            None
        }
    }
}

} // verus!
