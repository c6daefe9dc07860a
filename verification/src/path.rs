//! Output paths: relative paths with `/` between their parts.

use vstd::prelude::*;
use crate::text::{append_chars, chars_of, copy_range, same_chars, string_of};

verus! {

/// The position of the last `c` in `s`, or -1 when there is none.
pub open spec fn last_index_of(s: Seq<char>, c: char) -> int
    decreases s.len(),
{
    if s.len() == 0 {
        -1
    } else if s.last() == c {
        s.len() - 1
    } else {
        last_index_of(s.drop_last(), c)
    }
}

/// The path with the extension of its file name replaced by `html`.
///
/// The file name is what follows the last `/`. Its extension starts at its
/// last dot, unless that dot opens the name; a name without an extension gets
/// one. A path whose file name is empty, `.` or `..` is left as it is.
pub open spec fn html_path_spec(path: Seq<char>) -> Seq<char> {
    let start = last_index_of(path, '/') + 1;
    let name = path.skip(start);
    if name.len() == 0 || name == seq!['.'] || name == seq!['.', '.'] {
        path
    } else {
        let dot = last_index_of(name, '.');
        let end = if dot > 0 {
            start + dot
        } else {
            path.len() as int
        };
        path.take(end) + seq!['.', 'h', 't', 'm', 'l']
    }
}

/// `s` starts with `prefix`.
pub open spec fn starts_with(s: Seq<char>, prefix: Seq<char>) -> bool {
    prefix.len() <= s.len() && s.take(prefix.len() as int) == prefix
}

/// A path, with the mark that tells whether its root was taken off.
pub struct RootedPath {
    pub path: Seq<char>,
    pub root_stripped: bool,
}

/// The path with the root taken off, once: a path that lost its root
/// already, or that does not start with the root, is left as it is.
pub open spec fn strip_root_spec(p: RootedPath, root: Seq<char>) -> RootedPath {
    if !p.root_stripped && starts_with(p.path, root) {
        RootedPath { path: p.path.skip(root.len() as int), root_stripped: true }
    } else {
        p
    }
}

/// Stripping is idempotent: taking the root off a second time changes
/// nothing.
pub proof fn law_strip_root_idempotent(p: RootedPath, root: Seq<char>)
    ensures
        strip_root_spec(strip_root_spec(p, root), root) == strip_root_spec(p, root),
{
}

/// Scans `text[low..high]` from the right for `c`; gives the position of the
/// last one, or `low` minus one, as the count of characters up to and
/// including it.
fn last_index_in(text: &Vec<char>, low: usize, high: usize, c: char) -> (end: usize)
    requires
        low <= high <= text.len(),
    ensures
        low <= end <= high,
        end - low == last_index_of(text@.subrange(low as int, high as int), c) + 1,
{
    let ghost part = text@.subrange(low as int, high as int);
    let mut i: usize = high;
    proof {
        assert(part.take(high - low) =~= part);
    }
    while i > low && text[i - 1] != c
        invariant
            low <= i <= high <= text.len(),
            part == text@.subrange(low as int, high as int),
            last_index_of(part, c) == last_index_of(part.take(i - low), c),
        decreases i - low,
    {
        proof {
            assert(part.take(i - low).drop_last() =~= part.take(i - low - 1));
            assert(part.take(i - low).last() == text@[i - 1]);
        }
        i -= 1;
    }
    proof {
        if i > low {
            assert(part.take(i - low).last() == text@[i - 1]);
        }
    }
    i
}

/// Replaces the extension of a path's file name by `html`.
pub fn html_path(path: &str) -> (out: String)
    ensures
        out@ == html_path_spec(path@),
{
    let text = chars_of(path);
    let n: usize = text.len();
    let start = last_index_in(&text, 0, n, '/');
    proof {
        assert(text@.subrange(0, n as int) =~= text@);
        assert(text@.subrange(start as int, n as int) =~= text@.skip(start as int));
    }
    let name = copy_range(&text, start, n);
    let mut one: Vec<char> = Vec::new();
    one.push('.');
    let mut two: Vec<char> = Vec::new();
    two.push('.');
    two.push('.');
    proof {
        assert(one@ =~= seq!['.']);
        assert(two@ =~= seq!['.', '.']);
    }
    if name.len() == 0 || same_chars(&name, &one) || same_chars(&name, &two) {
        return string_of(&text);
    }
    let dot_end = last_index_in(&text, start, n, '.');
    let end: usize = if dot_end > start + 1 {
        dot_end - 1
    } else {
        n
    };
    let mut out = copy_range(&text, 0, end);
    let mut extension: Vec<char> = Vec::new();
    extension.push('.');
    extension.push('h');
    extension.push('t');
    extension.push('m');
    extension.push('l');
    proof {
        assert(extension@ =~= seq!['.', 'h', 't', 'm', 'l']);
        assert(text@.subrange(0, end as int) =~= text@.take(end as int));
    }
    append_chars(&mut out, &extension);
    string_of(&out)
}

/// Tells whether `text` starts with `prefix`.
pub fn has_prefix(text: &Vec<char>, prefix: &Vec<char>) -> (r: bool)
    ensures
        r == starts_with(text@, prefix@),
{
    if prefix.len() > text.len() {
        return false;
    }
    let mut i: usize = 0;
    while i < prefix.len()
        invariant
            i <= prefix.len() <= text.len(),
            forall|j: int| 0 <= j < i ==> text@[j] == prefix@[j],
        decreases prefix.len() - i,
    {
        if text[i] != prefix[i] {
            proof {
                assert(text@.take(prefix.len() as int)[i as int] != prefix@[i as int]);
            }
            return false;
        }
        i += 1;
    }
    proof {
        assert(text@.take(prefix.len() as int) =~= prefix@);
    }
    true
}

/// Takes the root off a path, once.
pub fn strip_root(path: &mut String, root_stripped: &mut bool, root: &str)
    ensures
        (RootedPath { path: final(path)@, root_stripped: *final(root_stripped) })
            == strip_root_spec(
            RootedPath { path: old(path)@, root_stripped: *old(root_stripped) },
            root@,
        ),
{
    if *root_stripped {
        return ;
    }
    let text = chars_of(path.as_str());
    let prefix = chars_of(root);
    if has_prefix(&text, &prefix) {
        let rest = copy_range(&text, prefix.len(), text.len());
        proof {
            assert(text@.subrange(prefix.len() as int, text.len() as int) =~= text@.skip(
                prefix.len() as int,
            ));
        }
        *path = string_of(&rest);
        *root_stripped = true;
    }
}

} // verus!
