//! The engine's path model.  A path is a plain string; the file name is
//! the part after the last separator (`/` or `\`), and the extension is
//! the part of the file name after its last dot, absent when the name has
//! no dot or only a leading one.

use vstd::prelude::*;
use crate::text::{chars_to_vec, lower_chars, spec_lower, string_of_range};

verus! {

pub open spec fn is_sep(c: char) -> bool {
    c == '/' || c == '\\'
}

/// Index just after the last separator of `p`, or 0 when `p` has none.
pub open spec fn after_last_sep(p: Seq<char>) -> nat
    decreases p.len(),
{
    if p.len() == 0 {
        0
    } else if is_sep(p.last()) {
        p.len()
    } else {
        after_last_sep(p.drop_last())
    }
}

/// The file name of `p`: everything after the last separator.
pub open spec fn file_name_spec(p: Seq<char>) -> Seq<char> {
    p.skip(after_last_sep(p) as int)
}

/// Index just after the last dot of `name`, or 0 when `name` has none.
pub open spec fn after_last_dot(name: Seq<char>) -> nat
    decreases name.len(),
{
    if name.len() == 0 {
        0
    } else if name.last() == '.' {
        name.len()
    } else {
        after_last_dot(name.drop_last())
    }
}

/// The extension of `p`: the part of the file name after its last dot.
/// A name without a dot, or with only a leading dot, has no extension.
pub open spec fn extension_spec(p: Seq<char>) -> Option<Seq<char>> {
    let name = file_name_spec(p);
    let k = after_last_dot(name) as int;
    if k <= 1 {
        None
    } else {
        Some(name.skip(k))
    }
}

proof fn lemma_after_last_sep_at(p: Seq<char>, i: int)
    requires
        0 <= i <= p.len(),
        forall|k: int| i <= k < p.len() ==> !is_sep(p[k]),
        i == 0 || is_sep(p[i - 1]),
    ensures
        after_last_sep(p) == i,
    decreases p.len(),
{
    if p.len() > 0 && !is_sep(p.last()) {
        lemma_after_last_sep_at(p.drop_last(), i);
    }
}

proof fn lemma_after_last_dot_at(name: Seq<char>, i: int)
    requires
        0 <= i <= name.len(),
        forall|k: int| i <= k < name.len() ==> name[k] != '.',
        i == 0 || name[i - 1] == '.',
    ensures
        after_last_dot(name) == i,
    decreases name.len(),
{
    if name.len() > 0 && name.last() != '.' {
        lemma_after_last_dot_at(name.drop_last(), i);
    }
}

fn sep_char(c: char) -> (r: bool)
    ensures
        r == is_sep(c),
{
    c == '/' || c == '\\'
}

/// Position just after the last separator of `v`, or 0 when it has none.
fn scan_after_last_sep(v: &Vec<char>) -> (r: usize)
    ensures
        r == after_last_sep(v@),
        r <= v@.len(),
{
    let mut i: usize = v.len();
    while i > 0 && !sep_char(v[i - 1])
        invariant
            i <= v.len(),
            forall|k: int| i <= k < v@.len() ==> !is_sep(v@[k]),
        decreases i,
    {
        i -= 1;
    }
    proof {
        lemma_after_last_sep_at(v@, i as int);
    }
    i
}

/// The file name of a path: everything after the last separator.
pub fn file_name_of(path: &str) -> (r: String)
    ensures
        r@ == file_name_spec(path@),
{
    let v = chars_to_vec(path);
    let i = scan_after_last_sep(&v);
    let r = string_of_range(&v, i, v.len());
    proof {
        assert(v@.subrange(i as int, v@.len() as int) =~= v@.skip(i as int));
    }
    r
}

/// The extension of a path, if its file name has one.
pub fn extension_of(path: &str) -> (r: Option<String>)
    ensures
        match r {
            Some(e) => extension_spec(path@) == Some(e@),
            None => extension_spec(path@) is None,
        },
{
    let v = chars_to_vec(path);
    let start = scan_after_last_sep(&v);
    let mut i: usize = v.len();
    while i > start && v[i - 1] != '.'
        invariant
            start <= i <= v.len(),
            forall|k: int| i <= k < v@.len() ==> v@[k] != '.',
        decreases i,
    {
        i -= 1;
    }
    proof {
        let name = file_name_spec(v@);
        assert(name =~= v@.skip(start as int));
        if i > start {
            lemma_after_last_dot_at(name, i - start as int);
        } else {
            lemma_after_last_dot_at(name, 0);
        }
    }
    if i > start && i - start > 1 {
        let e = string_of_range(&v, i, v.len());
        proof {
            let name = file_name_spec(v@);
            assert(name.skip(i - start as int) =~= v@.subrange(i as int, v@.len() as int));
        }
        Some(e)
    } else {
        None
    }
}

/// The lower-cased extension of a path, or the empty sequence when it
/// has none.
pub open spec fn spec_lower_ext(p: Seq<char>) -> Seq<char> {
    match extension_spec(p) {
        Some(e) => spec_lower(e),
        None => Seq::empty(),
    }
}

/// The lower-cased extension of a path, as characters; empty when the
/// path has none.
pub fn lower_ext_chars(path: &str) -> (r: Vec<char>)
    ensures
        r@ == spec_lower_ext(path@),
{
    match extension_of(path) {
        Some(e) => {
            let ev = chars_to_vec(e.as_str());
            lower_chars(&ev)
        },
        None => Vec::new(),
    }
}

} // verus!
