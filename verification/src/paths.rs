//! Path-string helpers: taking the parent of a path and joining a file
//! name onto a base directory. Paths are plain strings with `/` as the
//! separator; trailing separators are not normalised.
use vstd::prelude::*;

use crate::strutil::{lemma_scan_not_end, scan_not_end};

verus! {

/// The path with its last component removed: everything before the last
/// `/`, the root `/` alone when the last `/` leads the path, and the
/// empty path when there is no `/` at all.
pub open spec fn parent_spec(s: Seq<char>) -> Seq<char> {
    let m = scan_not_end(s, '/') as int;
    if m >= s.len() {
        Seq::empty()
    } else if s.len() - m - 1 == 0 {
        seq!['/']
    } else {
        s.subrange(0, s.len() - m - 1)
    }
}

/// `name` joined onto `base`: `name` alone when it is absolute or
/// `base` is empty, otherwise the two with exactly one `/` between
/// them.
pub open spec fn join_spec(base: Seq<char>, name: Seq<char>) -> Seq<char> {
    if name.len() > 0 && name[0] == '/' {
        name
    } else if base.len() == 0 {
        name
    } else if base[base.len() - 1] == '/' {
        base + name
    } else {
        base + seq!['/'] + name
    }
}

/// The parent directory of a path string.
pub fn parent_of(s: &str) -> (r: String)
    ensures
        r@ == parent_spec(s@),
{
    let len = s.unicode_len();
    let mut j: usize = len;
    while j > 0 && s.get_char(j - 1) != '/'
        invariant
            len == s@.len(),
            0 <= j <= len,
            forall|k: int| j <= k < len ==> s@[k] != '/',
        decreases j,
    {
        j -= 1;
    }
    proof {
        lemma_scan_not_end(s@, '/', j as int);
    }
    if j == 0 {
        let r = String::new();
        assert(r@ =~= parent_spec(s@));
        r
    } else if j == 1 {
        let r = String::from_str("/");
        proof {
            reveal_strlit("/");
        }
        assert(r@ =~= parent_spec(s@));
        r
    } else {
        let r = String::from_str(s.substring_char(0, j - 1));
        assert(r@ =~= parent_spec(s@));
        r
    }
}

/// Joins a file name onto a base directory.
pub fn join_path(base: &str, name: &str) -> (r: String)
    ensures
        r@ == join_spec(base@, name@),
{
    let blen = base.unicode_len();
    let nlen = name.unicode_len();
    if nlen > 0 && name.get_char(0) == '/' {
        return String::from_str(name);
    }
    if blen == 0 {
        return String::from_str(name);
    }
    if base.get_char(blen - 1) == '/' {
        let r = String::from_str(base).concat(name);
        assert(r@ =~= join_spec(base@, name@));
        r
    } else {
        let r = String::from_str(base).concat("/").concat(name);
        proof {
            reveal_strlit("/");
        }
        assert(r@ =~= join_spec(base@, name@));
        r
    }
}

} // verus!
