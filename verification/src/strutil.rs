//! Character-level string utilities: equality, scanning, trimming and
//! decimal parsing, each specified against the string's view.
use vstd::prelude::*;

verus! {

/// Whitespace recognised by [`trim`]: the characters with Unicode's
/// White_Space property, the same set `str::trim` removes.
pub open spec fn is_space(c: char) -> bool {
    let n = c as u32;
    ||| n == 0x20
    ||| (0x09 <= n && n <= 0x0D)
    ||| n == 0x85
    ||| n == 0xA0
    ||| n == 0x1680
    ||| (0x2000 <= n && n <= 0x200A)
    ||| n == 0x2028
    ||| n == 0x2029
    ||| n == 0x202F
    ||| n == 0x205F
    ||| n == 0x3000
}

/// Quote characters accepted around a value.
pub open spec fn is_quote(c: char) -> bool {
    c == '"' || c == '\''
}

/// Length of the longest prefix of `s` that does not contain `t`.
pub open spec fn scan_not(s: Seq<char>, t: char) -> nat
    decreases s.len(),
{
    if s.len() == 0 {
        0
    } else if s[0] == t {
        0
    } else {
        1 + scan_not(s.subrange(1, s.len() as int), t)
    }
}

/// Length of the longest prefix of `s` made of whitespace.
pub open spec fn scan_space(s: Seq<char>) -> nat
    decreases s.len(),
{
    if s.len() == 0 {
        0
    } else if is_space(s[0]) {
        1 + scan_space(s.subrange(1, s.len() as int))
    } else {
        0
    }
}

/// Length of the longest suffix of `s` made of whitespace.
pub open spec fn scan_space_end(s: Seq<char>) -> nat
    decreases s.len(),
{
    if s.len() == 0 {
        0
    } else if is_space(s[s.len() - 1]) {
        1 + scan_space_end(s.subrange(0, s.len() - 1))
    } else {
        0
    }
}

/// Length of the longest suffix of `s` that does not contain `t`.
pub open spec fn scan_not_end(s: Seq<char>, t: char) -> nat
    decreases s.len(),
{
    if s.len() == 0 {
        0
    } else if s[s.len() - 1] == t {
        0
    } else {
        1 + scan_not_end(s.subrange(0, s.len() - 1), t)
    }
}

pub proof fn lemma_scan_not(s: Seq<char>, t: char, i: int)
    requires
        0 <= i <= s.len(),
        forall|k: int| 0 <= k < i ==> s[k] != t,
        i < s.len() ==> s[i] == t,
    ensures
        scan_not(s, t) == i,
    decreases s.len(),
{
    if s.len() == 0 {
    } else if i == 0 {
    } else {
        let tail = s.subrange(1, s.len() as int);
        assert(forall|k: int| 0 <= k < i - 1 ==> tail[k] == s[k + 1]);
        lemma_scan_not(tail, t, i - 1);
    }
}

pub proof fn lemma_scan_space(s: Seq<char>, i: int)
    requires
        0 <= i <= s.len(),
        forall|k: int| 0 <= k < i ==> is_space(s[k]),
        i < s.len() ==> !is_space(s[i]),
    ensures
        scan_space(s) == i,
    decreases s.len(),
{
    if s.len() == 0 {
    } else if i == 0 {
    } else {
        let tail = s.subrange(1, s.len() as int);
        assert(forall|k: int| 0 <= k < i - 1 ==> tail[k] == s[k + 1]);
        lemma_scan_space(tail, i - 1);
    }
}

pub proof fn lemma_scan_space_end(s: Seq<char>, j: int)
    requires
        0 <= j <= s.len(),
        forall|k: int| j <= k < s.len() ==> is_space(s[k]),
        j > 0 ==> !is_space(s[j - 1]),
    ensures
        scan_space_end(s) == s.len() - j,
    decreases s.len(),
{
    if j == s.len() {
    } else {
        let head = s.subrange(0, s.len() - 1);
        assert(forall|k: int| j <= k < head.len() ==> head[k] == s[k]);
        lemma_scan_space_end(head, j);
    }
}

pub proof fn lemma_scan_not_end(s: Seq<char>, t: char, j: int)
    requires
        0 <= j <= s.len(),
        forall|k: int| j <= k < s.len() ==> s[k] != t,
        j > 0 ==> s[j - 1] == t,
    ensures
        scan_not_end(s, t) == s.len() - j,
    decreases s.len(),
{
    if j == s.len() {
    } else {
        let head = s.subrange(0, s.len() - 1);
        assert(forall|k: int| j <= k < head.len() ==> head[k] == s[k]);
        lemma_scan_not_end(head, t, j);
    }
}

/// `s` with leading and trailing whitespace removed.
///
/// The guard on the subrange is vacuous (both scans are bounded by the
/// length) but keeps the definition total without a side lemma.
pub open spec fn trim_spec(s: Seq<char>) -> Seq<char> {
    let a = scan_space(s) as int;
    let b = s.len() - scan_space_end(s) as int;
    if 0 <= a <= b <= s.len() {
        s.subrange(a, b)
    } else {
        Seq::empty()
    }
}

/// Character-by-character string equality, tied to the views.
pub fn str_eq(a: &str, b: &str) -> (r: bool)
    ensures
        r <==> a@ == b@,
{
    let alen = a.unicode_len();
    let blen = b.unicode_len();
    if alen != blen {
        assert(a@ != b@);
        return false;
    }
    let mut i: usize = 0;
    while i < alen
        invariant
            alen == a@.len(),
            blen == b@.len(),
            alen == blen,
            0 <= i <= alen,
            forall|k: int| 0 <= k < i ==> a@[k] == b@[k],
        decreases alen - i,
    {
        if a.get_char(i) != b.get_char(i) {
            assert(a@ != b@);
            return false;
        }
        i += 1;
    }
    assert(a@ =~= b@);
    true
}

/// Index of the first occurrence of `t` in `s`, or the length of `s`
/// when `t` does not occur.
pub fn find_char(s: &str, t: char) -> (r: usize)
    ensures
        r == scan_not(s@, t),
        r <= s@.len(),
        r < s@.len() ==> s@[r as int] == t,
        forall|k: int| 0 <= k < r ==> s@[k] != t,
{
    let len = s.unicode_len();
    let mut i: usize = 0;
    while i < len && s.get_char(i) != t
        invariant
            len == s@.len(),
            0 <= i <= len,
            forall|k: int| 0 <= k < i ==> s@[k] != t,
        decreases len - i,
    {
        i += 1;
    }
    proof {
        lemma_scan_not(s@, t, i as int);
    }
    i
}

fn is_space_char(c: char) -> (r: bool)
    ensures
        r == is_space(c),
{
    let n = c as u32;
    n == 0x20 || (0x09 <= n && n <= 0x0D) || n == 0x85 || n == 0xA0 || n == 0x1680 || (0x2000 <= n
        && n <= 0x200A) || n == 0x2028 || n == 0x2029 || n == 0x202F || n == 0x205F || n == 0x3000
}

/// `s` without leading and trailing whitespace.
pub fn trim(s: &str) -> (r: &str)
    ensures
        r@ == trim_spec(s@),
{
    let len = s.unicode_len();
    let mut a: usize = 0;
    while a < len && is_space_char(s.get_char(a))
        invariant
            len == s@.len(),
            0 <= a <= len,
            forall|k: int| 0 <= k < a ==> is_space(s@[k]),
        decreases len - a,
    {
        a += 1;
    }
    proof {
        lemma_scan_space(s@, a as int);
    }
    if a == len {
        proof {
            lemma_scan_space_end(s@, 0);
        }
        let r = s.substring_char(0, 0);
        assert(r@ =~= trim_spec(s@));
        return r;
    }
    let mut b: usize = len;
    while b > a && is_space_char(s.get_char(b - 1))
        invariant
            len == s@.len(),
            a <= b <= len,
            a < len,
            !is_space(s@[a as int]),
            forall|k: int| b <= k < len ==> is_space(s@[k]),
        decreases b,
    {
        b -= 1;
    }
    assert(b > a) by {
        if b == a {
            assert(is_space(s@[a as int]));
        }
    }
    proof {
        lemma_scan_space_end(s@, b as int);
    }
    let r = s.substring_char(a, b);
    assert(r@ =~= trim_spec(s@));
    r
}

/// True for the ten decimal digit characters.
pub open spec fn is_digit(c: char) -> bool {
    ('0' as u32) <= (c as u32) && (c as u32) <= ('9' as u32)
}

/// The number written by a sequence of digit characters, most
/// significant first.
pub open spec fn digits_val(s: Seq<char>) -> int
    decreases s.len(),
{
    if s.len() == 0 {
        0
    } else {
        digits_val(s.subrange(0, s.len() - 1)) * 10 + ((s[s.len() - 1] as u32) - ('0' as u32))
    }
}

/// True when every character of `s` is a decimal digit.
pub open spec fn all_digits(s: Seq<char>) -> bool {
    forall|k: int| 0 <= k < s.len() ==> is_digit(s[k])
}

/// `s` without one leading `+` sign, if it has one.
pub open spec fn strip_plus(s: Seq<char>) -> Seq<char> {
    if s.len() > 0 && s[0] == '+' {
        s.subrange(1, s.len() as int)
    } else {
        s
    }
}

/// What parsing a decimal unsigned integer from `s` yields: an optional
/// leading `+`, then at least one digit, and a value that fits in
/// `u64`; anything else is rejected.
pub open spec fn parse_u64_spec(s: Seq<char>) -> Option<u64> {
    let body = strip_plus(s);
    if body.len() > 0 && all_digits(body) && 0 <= digits_val(body) <= u64::MAX {
        Some(digits_val(body) as u64)
    } else {
        None
    }
}

proof fn lemma_digits_val_prefix_grows(s: Seq<char>, i: int)
    requires
        0 <= i <= s.len(),
        digits_val(s.subrange(0, i)) >= 0,
        forall|k: int| i <= k < s.len() ==> is_digit(s[k]),
    ensures
        digits_val(s) >= digits_val(s.subrange(0, i)),
    decreases s.len() - i,
{
    if i == s.len() {
        assert(s.subrange(0, i) =~= s);
    } else {
        let p = s.subrange(0, i + 1);
        assert(p.subrange(0, p.len() - 1) =~= s.subrange(0, i));
        assert(p[p.len() - 1] == s[i]);
        assert(digits_val(p) >= digits_val(s.subrange(0, i)));
        lemma_digits_val_prefix_grows(s, i + 1);
    }
}

/// Parses `s` as a decimal unsigned integer: an optional leading `+`,
/// then one or more digits; absent when the shape is wrong or the
/// value does not fit in `u64`.
pub fn parse_u64(s: &str) -> (r: Option<u64>)
    ensures
        r == parse_u64_spec(s@),
{
    let len = s.unicode_len();
    let start: usize = if len > 0 && s.get_char(0) == '+' {
        1
    } else {
        0
    };
    let ghost body = strip_plus(s@);
    assert(body.len() == len - start);
    assert(forall|k: int| 0 <= k < body.len() ==> body[k] == s@[k + start]);
    if start == len {
        return None;
    }
    let mut acc: u64 = 0;
    let mut i: usize = start;
    while i < len
        invariant
            len == s@.len(),
            start <= i <= len,
            start < len,
            body == strip_plus(s@),
            body.len() == len - start,
            forall|k: int| 0 <= k < body.len() ==> body[k] == s@[k + start],
            forall|k: int| 0 <= k < i - start ==> is_digit(body[k]),
            acc == digits_val(body.subrange(0, i - start)),
        decreases len - i,
    {
        let c = s.get_char(i);
        if (c as u32) < ('0' as u32) || (c as u32) > ('9' as u32) {
            proof {
                assert(!all_digits(body)) by {
                    assert(0 <= i - start < body.len());
                    assert(!is_digit(body[i - start]));
                }
            }
            return None;
        }
        let d: u64 = ((c as u32) - ('0' as u32)) as u64;
        let ghost pre = body.subrange(0, i - start);
        let ghost cur = body.subrange(0, i + 1 - start);
        assert(cur.subrange(0, cur.len() - 1) =~= pre);
        assert(cur[cur.len() - 1] == body[i - start]);
        if acc > u64::MAX / 10 || (acc == u64::MAX / 10 && d > u64::MAX % 10) {
            assert(digits_val(cur) > u64::MAX) by {
                assert(digits_val(cur) == acc * 10 + d);
                assert(acc * 10 + d > u64::MAX) by (nonlinear_arith)
                    requires
                        acc > u64::MAX / 10 || (acc == u64::MAX / 10 && d > u64::MAX % 10),
                        d <= 9,
                ;
            }
            proof {
                if all_digits(body) {
                    assert(digits_val(body.subrange(0, i + 1 - start)) == digits_val(cur));
                    lemma_digits_val_prefix_grows(body, i + 1 - start);
                    assert(digits_val(body) > u64::MAX);
                }
            }
            return None;
        }
        assert(acc * 10 + d <= u64::MAX) by (nonlinear_arith)
            requires
                acc <= u64::MAX / 10,
                acc == u64::MAX / 10 ==> d <= u64::MAX % 10,
                d <= 9,
        ;
        acc = acc * 10 + d;
        assert(acc == digits_val(cur));
        i += 1;
    }
    assert(body.subrange(0, body.len() as int) =~= body);
    assert(all_digits(body));
    Some(acc)
}

} // verus!
