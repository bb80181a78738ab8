//! The system identity store: a read-only key-value table built from a
//! line-oriented `KEY=VALUE` file, with typed accessors and named
//! lookups for the well-known keys.
use vstd::prelude::*;

use crate::error::IdentityError;
use crate::strutil::{
    find_char, is_quote, parse_u64, parse_u64_spec, scan_not, str_eq, trim, trim_spec,
};

verus! {

/// What unquoting a value yields: when the value opens with a quote
/// character, the same character must close it and the interior is
/// returned as-is; a lone or mismatched quote rejects the value; an
/// unquoted value is returned unchanged.
pub open spec fn unquote_spec(s: Seq<char>) -> Option<Seq<char>> {
    if s.len() > 0 && is_quote(s[0]) {
        if s.len() >= 2 && s[s.len() - 1] == s[0] {
            Some(s.subrange(1, s.len() - 1))
        } else {
            None
        }
    } else {
        Some(s)
    }
}

/// What one line contributes: `None` when the line fails the load
/// (mismatched quoting), `Some(None)` when the line is skipped (no `=`
/// sign), and `Some(Some((key, value)))` otherwise. The line is split
/// on its first `=`, both sides are trimmed, and the value unquoted.
pub open spec fn parse_line_spec(l: Seq<char>) -> Option<Option<(Seq<char>, Seq<char>)>> {
    let i = scan_not(l, '=');
    if i >= l.len() {
        Some(None)
    } else {
        let k = trim_spec(l.subrange(0, i as int));
        match unquote_spec(trim_spec(l.subrange(i as int + 1, l.len() as int))) {
            None => None,
            Some(v) => Some(Some((k, v))),
        }
    }
}

/// The table `acc` after recording one line.
pub open spec fn apply_line(acc: Map<Seq<char>, Seq<char>>, l: Seq<char>) -> Option<
    Map<Seq<char>, Seq<char>>,
> {
    match parse_line_spec(l) {
        None => None,
        Some(None) => Some(acc),
        Some(Some(kv)) => Some(acc.insert(kv.0, kv.1)),
    }
}

/// The table `acc` after recording every line of `s`, split on `\n`,
/// first line first — so a repeated key keeps its last occurrence.
pub open spec fn table_of_rest(s: Seq<char>, acc: Map<Seq<char>, Seq<char>>) -> Option<
    Map<Seq<char>, Seq<char>>,
>
    decreases s.len(),
{
    if s.len() == 0 {
        Some(acc)
    } else {
        let i = scan_not(s, '\n');
        if i >= s.len() {
            apply_line(acc, s)
        } else {
            match apply_line(acc, s.subrange(0, i as int)) {
                None => None,
                Some(acc2) => table_of_rest(s.subrange(i as int + 1, s.len() as int), acc2),
            }
        }
    }
}

/// The key-value table described by a whole identity file, or `None`
/// when some line fails the load.
pub open spec fn table_of(s: Seq<char>) -> Option<Map<Seq<char>, Seq<char>>> {
    table_of_rest(s, Map::empty())
}

/// Strips matching quotes from a value.
pub fn remove_quotes(s: &str) -> (r: Result<String, IdentityError>)
    ensures
        match r {
            Ok(v) => unquote_spec(s@) == Some(v@),
            Err(_) => unquote_spec(s@) is None,
        },
{
    let len = s.unicode_len();
    if len == 0 {
        return Ok(String::from_str(s));
    }
    let c0 = s.get_char(0);
    if c0 == '"' || c0 == '\'' {
        if len >= 2 && s.get_char(len - 1) == c0 {
            Ok(String::from_str(s.substring_char(1, len - 1)))
        } else {
            Err(IdentityError::UnmatchedQuote(String::from_str(s)))
        }
    } else {
        Ok(String::from_str(s))
    }
}

/// Splits a line on its first `=`, trims both sides and unquotes the
/// value. A line without `=` is skipped, reported as `Ok(None)`.
pub fn parse_line(line: &str) -> (r: Result<Option<(String, String)>, IdentityError>)
    ensures
        match r {
            Ok(None) => parse_line_spec(line@) == Some(Option::<(Seq<char>, Seq<char>)>::None),
            Ok(Some(kv)) => parse_line_spec(line@) == Some(Some((kv.0@, kv.1@))),
            Err(_) => parse_line_spec(line@) is None,
        },
{
    let len = line.unicode_len();
    let i = find_char(line, '=');
    if i == len {
        return Ok(None);
    }
    let key = trim(line.substring_char(0, i));
    let val_trimmed = trim(line.substring_char(i + 1, len));
    match remove_quotes(val_trimmed) {
        Err(e) => Err(e),
        Ok(v) => Ok(Some((String::from_str(key), v))),
    }
}

/// The table of an association list, later entries shadowing earlier
/// ones.
spec fn assoc_view(v: Seq<(String, String)>) -> Map<Seq<char>, Seq<char>>
    decreases v.len(),
{
    if v.len() == 0 {
        Map::empty()
    } else {
        assoc_view(v.drop_last()).insert(v.last().0@, v.last().1@)
    }
}

proof fn lemma_assoc_view_skip(v: Seq<(String, String)>, k: Seq<char>, j: int)
    requires
        0 <= j <= v.len(),
        forall|t: int| j <= t < v.len() ==> v[t].0@ != k,
    ensures
        assoc_view(v).contains_key(k) == assoc_view(v.subrange(0, j)).contains_key(k),
        assoc_view(v).contains_key(k) ==> assoc_view(v)[k] == assoc_view(v.subrange(0, j))[k],
    decreases v.len() - j,
{
    if j == v.len() {
        assert(v.subrange(0, j) =~= v);
    } else {
        let w = v.drop_last();
        assert(w.subrange(0, j) =~= v.subrange(0, j));
        assert(v.last().0@ != k);
        lemma_assoc_view_skip(w, k, j);
    }
}

/// The read cache of the system identity file: an immutable key-value
/// table. Its view is the mapping it holds.
pub struct OsRelease {
    vars: Vec<(String, String)>,
}

impl View for OsRelease {
    type V = Map<Seq<char>, Seq<char>>;

    closed spec fn view(&self) -> Map<Seq<char>, Seq<char>> {
        assoc_view(self.vars@)
    }
}

impl OsRelease {
    /// Builds the table from the text of an identity file; the result
    /// holds exactly the table that the text describes, and the load
    /// fails exactly when some line of the text fails.
    pub fn from_content(content: &str) -> (r: Result<OsRelease, IdentityError>)
        ensures
            match r {
                Ok(osr) => table_of(content@) == Some(osr@),
                Err(_) => table_of(content@) is None,
            },
    {
        let len = content.unicode_len();
        let mut vars: Vec<(String, String)> = Vec::new();
        let mut pos: usize = 0;
        proof {
            assert(content@.subrange(0, len as int) =~= content@);
            assert(vars@ =~= Seq::<(String, String)>::empty());
            assert(assoc_view(vars@) =~= Map::<Seq<char>, Seq<char>>::empty());
        }
        while pos < len
            invariant
                len == content@.len(),
                0 <= pos <= len,
                table_of(content@) == table_of_rest(
                    content@.subrange(pos as int, len as int),
                    assoc_view(vars@),
                ),
            decreases len - pos,
        {
            let ghost rest = content@.subrange(pos as int, len as int);
            let tail = content.substring_char(pos, len);
            let off = find_char(tail, '\n');
            let nl = pos + off;
            let line = content.substring_char(pos, nl);
            assert(line@ =~= rest.subrange(0, off as int));
            assert(off == rest.len() ==> line@ =~= rest);
            let ghost acc = assoc_view(vars@);
            match parse_line(line) {
                Err(e) => {
                    assert(apply_line(acc, line@) is None);
                    assert(table_of(content@) is None);
                    return Err(e);
                },
                Ok(None) => {
                    assert(apply_line(acc, line@) == Some(acc));
                },
                Ok(Some(kv)) => {
                    let ghost pre_vars = vars@;
                    vars.push(kv);
                    proof {
                        assert(vars@.drop_last() =~= pre_vars);
                        assert(assoc_view(vars@) == acc.insert(kv.0@, kv.1@));
                        assert(apply_line(acc, line@) == Some(assoc_view(vars@)));
                    }
                },
            }
            if nl == len {
                pos = len;
                assert(content@.subrange(pos as int, len as int) =~= Seq::<char>::empty());
            } else {
                pos = nl + 1;
                assert(content@.subrange(pos as int, len as int) =~= rest.subrange(
                    off as int + 1,
                    rest.len() as int,
                ));
            }
        }
        assert(content@.subrange(pos as int, len as int) =~= Seq::<char>::empty());
        Ok(OsRelease { vars })
    }

    /// Exact-match lookup of a key in the table.
    pub fn get_value(&self, key: &str) -> (r: Option<String>)
        ensures
            r is Some <==> self@.contains_key(key@),
            r is Some ==> r->0@ == self@[key@],
    {
        let mut j: usize = self.vars.len();
        while j > 0
            invariant
                j <= self.vars.len(),
                forall|t: int| j <= t < self.vars@.len() ==> self.vars@[t].0@ != key@,
            decreases j,
        {
            if str_eq(self.vars[j - 1].0.as_str(), key) {
                proof {
                    lemma_assoc_view_skip(self.vars@, key@, j as int);
                    let p = self.vars@.subrange(0, j as int);
                    assert(p.drop_last() =~= self.vars@.subrange(0, j - 1));
                    assert(p.last() == self.vars@[j - 1]);
                }
                return Some(self.vars[j - 1].1.clone());
            }
            j -= 1;
        }
        proof {
            lemma_assoc_view_skip(self.vars@, key@, 0);
            assert(self.vars@.subrange(0, 0) =~= Seq::<(String, String)>::empty());
        }
        None
    }

    /// Looks a key up and parses its value as a non-negative decimal
    /// integer; absent when the key is missing or the value does not
    /// parse — a bad value never fails the caller.
    pub fn get_int_value(&self, key: &str) -> (r: Option<u64>)
        ensures
            self@.contains_key(key@) ==> r == parse_u64_spec(self@[key@]),
            !self@.contains_key(key@) ==> r is None,
    {
        match self.get_value(key) {
            Some(v) => parse_u64(v.as_str()),
            None => None,
        }
    }

    /// The release channel of the running system.
    pub fn citadel_channel(&self) -> (r: Option<String>)
        ensures
            r is Some <==> self@.contains_key("CITADEL_CHANNEL"@),
            r is Some ==> r->0@ == self@["CITADEL_CHANNEL"@],
    {
        self.get_value("CITADEL_CHANNEL")
    }

    /// The public key that images are verified against.
    pub fn citadel_image_pubkey(&self) -> (r: Option<String>)
        ensures
            r is Some <==> self@.contains_key("CITADEL_IMAGE_PUBKEY"@),
            r is Some ==> r->0@ == self@["CITADEL_IMAGE_PUBKEY"@],
    {
        self.get_value("CITADEL_IMAGE_PUBKEY")
    }

    /// The version number of the root filesystem image.
    pub fn citadel_rootfs_version(&self) -> (r: Option<u64>)
        ensures
            self@.contains_key("CITADEL_ROOTFS_VERSION"@) ==> r == parse_u64_spec(
                self@["CITADEL_ROOTFS_VERSION"@],
            ),
            !self@.contains_key("CITADEL_ROOTFS_VERSION"@) ==> r is None,
    {
        self.get_int_value("CITADEL_ROOTFS_VERSION")
    }

    /// The version of the running kernel image.
    pub fn citadel_kernel_version(&self) -> (r: Option<String>)
        ensures
            r is Some <==> self@.contains_key("CITADEL_KERNEL_VERSION"@),
            r is Some ==> r->0@ == self@["CITADEL_KERNEL_VERSION"@],
    {
        self.get_value("CITADEL_KERNEL_VERSION")
    }

    /// The identifier of the running kernel image.
    pub fn citadel_kernel_id(&self) -> (r: Option<String>)
        ensures
            r is Some <==> self@.contains_key("CITADEL_KERNEL_ID"@),
            r is Some ==> r->0@ == self@["CITADEL_KERNEL_ID"@],
    {
        self.get_value("CITADEL_KERNEL_ID")
    }
}

/// The candidate locations of the identity file, in priority order: the
/// primary system path, the same path under an alternate mounted root,
/// and the early-boot fallback.
pub fn candidate_paths() -> (r: Vec<String>)
    ensures
        r@.len() == 3,
        r@[0]@ == "/etc/os-release"@,
        r@[1]@ == "/sysroot/etc/os-release"@,
        r@[2]@ == "/etc/initrd-release"@,
{
    let mut v: Vec<String> = Vec::new();
    v.push(String::from_str("/etc/os-release"));
    v.push(String::from_str("/sysroot/etc/os-release"));
    v.push(String::from_str("/etc/initrd-release"));
    v
}

/// The index of the first existing candidate, in priority order, if
/// any exists.
pub open spec fn first_existing(exists: Seq<bool>) -> Option<int>
    decreases exists.len(),
{
    if exists.len() == 0 {
        None
    } else if exists[0] {
        Some(0)
    } else {
        match first_existing(exists.subrange(1, exists.len() as int)) {
            Some(i) => Some(i + 1),
            None => None,
        }
    }
}

proof fn lemma_first_existing(s: Seq<bool>, i: int)
    requires
        0 <= i <= s.len(),
        forall|k: int| 0 <= k < i ==> !s[k],
        i < s.len() ==> s[i],
    ensures
        first_existing(s) == if i < s.len() {
            Some(i)
        } else {
            Option::<int>::None
        },
    decreases s.len(),
{
    if s.len() == 0 {
    } else if i == 0 {
    } else {
        let tail = s.subrange(1, s.len() as int);
        assert(forall|k: int| 0 <= k < i - 1 ==> tail[k] == s[k + 1]);
        lemma_first_existing(tail, i - 1);
    }
}

/// Candidate precedence: when the primary candidate exists, the
/// selection is the primary, whatever other candidates also exist — so
/// only the primary's contents reach the parser.
pub proof fn lemma_primary_wins(exists: Seq<bool>)
    requires
        exists.len() > 0,
        exists[0],
    ensures
        first_existing(exists) == Some(0int),
{
}

/// Picks the first candidate that exists: the returned index is the
/// earliest `true`, and nothing is picked only when no candidate
/// exists.
pub fn select_candidate(exists: &Vec<bool>) -> (r: Option<usize>)
    ensures
        match r {
            Some(i) => first_existing(exists@) == Some(i as int) && i < exists@.len()
                && exists@[i as int] && (forall|k: int| 0 <= k < i ==> !exists@[k]),
            None => first_existing(exists@) is None && (forall|k: int|
                0 <= k < exists@.len() ==> !exists@[k]),
        },
{
    let mut i: usize = 0;
    while i < exists.len()
        invariant
            0 <= i <= exists@.len(),
            forall|k: int| 0 <= k < i ==> !exists@[k],
        decreases exists@.len() - i,
    {
        if exists[i] {
            proof {
                lemma_first_existing(exists@, i as int);
            }
            return Some(i);
        }
        i += 1;
    }
    proof {
        lemma_first_existing(exists@, exists@.len() as int);
    }
    None
}

} // verus!
