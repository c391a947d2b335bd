//! Character-sequence utilities shared by the session namer, the input
//! discovery and the document writers.

use vstd::prelude::*;
use vstd::string::*;

verus! {

/// The characters of a string slice, in order.
pub fn str_chars(s: &str) -> (r: Vec<char>)
    ensures
        r@ == s@,
{
    let n: usize = s.unicode_len();
    let mut r: Vec<char> = Vec::new();
    let mut i: usize = 0;
    while i < n
        invariant
            i <= n,
            n == s@.len(),
            r@ =~= s@.take(i as int),
        decreases n - i,
    {
        r.push(s.get_char(i));
        proof {
            assert(r@ =~= s@.take(i + 1));
        }
        i = i + 1;
    }
    proof {
        assert(s@.take(n as int) =~= s@);
    }
    r
}

/// Relies on std's `FromIterator` impl for `String`: collecting characters
/// yields the string made of exactly those characters, in order.
#[verifier::external_body]
pub(crate) fn chars_to_string(v: &Vec<char>) -> (r: String)
    ensures
        r@ == v@,
{
    v.iter().collect()
}

/// `pat` occurs in `s` starting at position `i`.
pub open spec fn matches_at(s: Seq<char>, pat: Seq<char>, i: int) -> bool {
    &&& 0 <= i
    &&& i + pat.len() <= s.len()
    &&& s.subrange(i, i + pat.len() as int) == pat
}

/// Whether `pat` occurs at position `i` of `v`.
pub fn check_match(v: &Vec<char>, pat: &Vec<char>, i: usize) -> (b: bool)
    requires
        i <= v@.len(),
    ensures
        b == matches_at(v@, pat@, i as int),
{
    if pat.len() > v.len() - i {
        proof {
            assert(!matches_at(v@, pat@, i as int));
        }
        return false;
    }
    let mut k: usize = 0;
    while k < pat.len()
        invariant
            k <= pat@.len(),
            i + pat@.len() <= v@.len(),
            v@.len() <= usize::MAX,
            forall|j: int| 0 <= j < k ==> v@[i + j] == pat@[j],
        decreases pat@.len() - k,
    {
        if v[i + k] != pat[k] {
            proof {
                assert(v@.subrange(i as int, i + pat@.len() as int)[k as int] != pat@[k as int]);
            }
            return false;
        }
        k = k + 1;
    }
    proof {
        assert(v@.subrange(i as int, i + pat@.len() as int) =~= pat@);
    }
    true
}

/// `i` is the first position at or after `from` where `pat` occurs in `s`.
pub open spec fn is_first_match_from(s: Seq<char>, pat: Seq<char>, from: int, i: int) -> bool {
    &&& from <= i
    &&& matches_at(s, pat, i)
    &&& forall|j: int| from <= j < i ==> !matches_at(s, pat, j)
}

/// `i` is the last position where `pat` occurs in `s`.
pub open spec fn is_last_match(s: Seq<char>, pat: Seq<char>, i: int) -> bool {
    &&& matches_at(s, pat, i)
    &&& forall|j: int| j > i ==> !matches_at(s, pat, j)
}

/// The first position at or after `from` where `pat` occurs in `s`, if any.
pub open spec fn spec_find(s: Seq<char>, pat: Seq<char>, from: int) -> Option<int> {
    if exists|i: int| is_first_match_from(s, pat, from, i) {
        Some(choose|i: int| is_first_match_from(s, pat, from, i))
    } else {
        None
    }
}

/// The last position where `pat` occurs in `s`, if any.
pub open spec fn spec_rfind(s: Seq<char>, pat: Seq<char>) -> Option<int> {
    if exists|i: int| is_last_match(s, pat, i) {
        Some(choose|i: int| is_last_match(s, pat, i))
    } else {
        None
    }
}

/// `i` is the first position of character `c` in `s`.
pub open spec fn is_first_char_at(s: Seq<char>, c: char, i: int) -> bool {
    &&& 0 <= i < s.len()
    &&& s[i] == c
    &&& forall|j: int| 0 <= j < i ==> s[j] != c
}

/// The first position of character `c` in `s`, if any.
pub open spec fn spec_find_char(s: Seq<char>, c: char) -> Option<int> {
    if exists|i: int| is_first_char_at(s, c, i) {
        Some(choose|i: int| is_first_char_at(s, c, i))
    } else {
        None
    }
}

pub proof fn lemma_first_match_unique(s: Seq<char>, pat: Seq<char>, from: int, i1: int, i2: int)
    requires
        is_first_match_from(s, pat, from, i1),
        is_first_match_from(s, pat, from, i2),
    ensures
        i1 == i2,
{
    if i1 < i2 {
        assert(!matches_at(s, pat, i1));
    }
    if i2 < i1 {
        assert(!matches_at(s, pat, i2));
    }
}

pub proof fn lemma_last_match_unique(s: Seq<char>, pat: Seq<char>, i1: int, i2: int)
    requires
        is_last_match(s, pat, i1),
        is_last_match(s, pat, i2),
    ensures
        i1 == i2,
{
    if i1 < i2 {
        assert(!matches_at(s, pat, i2));
    }
    if i2 < i1 {
        assert(!matches_at(s, pat, i1));
    }
}

pub proof fn lemma_first_char_unique(s: Seq<char>, c: char, i1: int, i2: int)
    requires
        is_first_char_at(s, c, i1),
        is_first_char_at(s, c, i2),
    ensures
        i1 == i2,
{
}

/// First position at or after `from` where `pat` occurs in `v`.
pub fn find_subseq(v: &Vec<char>, pat: &Vec<char>, from: usize) -> (r: Option<usize>)
    requires
        from <= v@.len(),
    ensures
        match r {
            Some(i) => spec_find(v@, pat@, from as int) == Some(i as int)
                && is_first_match_from(v@, pat@, from as int, i as int),
            None => spec_find(v@, pat@, from as int) is None,
        },
{
    let mut i: usize = from;
    while i < v.len()
        invariant
            from <= i <= v@.len(),
            forall|j: int| from <= j < i ==> !matches_at(v@, pat@, j),
        decreases v@.len() - i,
    {
        if check_match(v, pat, i) {
            proof {
                lemma_found_first_match(v@, pat@, from as int, i as int);
            }
            return Some(i);
        }
        i = i + 1;
    }
    if check_match(v, pat, i) {
        proof {
            lemma_found_first_match(v@, pat@, from as int, i as int);
        }
        return Some(i);
    }
    proof {
        assert(forall|j: int| j > v@.len() ==> !matches_at(v@, pat@, j));
        assert(forall|j: int| from <= j ==> !matches_at(v@, pat@, j));
    }
    None
}

proof fn lemma_found_first_match(s: Seq<char>, pat: Seq<char>, from: int, i: int)
    requires
        is_first_match_from(s, pat, from, i),
    ensures
        spec_find(s, pat, from) == Some(i),
{
    let w = choose|k: int| is_first_match_from(s, pat, from, k);
    lemma_first_match_unique(s, pat, from, w, i);
}

/// First position of character `c` in `v`.
pub fn find_char(v: &Vec<char>, c: char) -> (r: Option<usize>)
    ensures
        match r {
            Some(i) => spec_find_char(v@, c) == Some(i as int)
                && is_first_char_at(v@, c, i as int),
            None => spec_find_char(v@, c) is None,
        },
{
    let mut i: usize = 0;
    while i < v.len()
        invariant
            i <= v@.len(),
            forall|j: int| 0 <= j < i ==> v@[j] != c,
        decreases v@.len() - i,
    {
        if v[i] == c {
            proof {
                let w = choose|k: int| is_first_char_at(v@, c, k);
                assert(is_first_char_at(v@, c, i as int));
                lemma_first_char_unique(v@, c, w, i as int);
            }
            return Some(i);
        }
        i = i + 1;
    }
    None
}

/// Last position where `pat` occurs in `v`.
pub fn rfind_subseq(v: &Vec<char>, pat: &Vec<char>) -> (r: Option<usize>)
    ensures
        match r {
            Some(i) => spec_rfind(v@, pat@) == Some(i as int) && is_last_match(
                v@,
                pat@,
                i as int,
            ),
            None => spec_rfind(v@, pat@) is None,
        },
{
    let mut best: Option<usize> = None;
    let mut i: usize = 0;
    while i < v.len()
        invariant
            i <= v@.len(),
            match best {
                Some(b) => b < i && matches_at(v@, pat@, b as int) && forall|j: int|
                    b < j < i ==> !matches_at(v@, pat@, j),
                None => forall|j: int| 0 <= j < i ==> !matches_at(v@, pat@, j),
            },
        decreases v@.len() - i,
    {
        if check_match(v, pat, i) {
            best = Some(i);
        }
        i = i + 1;
    }
    if check_match(v, pat, i) {
        best = Some(i);
    }
    proof {
        assert(forall|j: int| j > v@.len() ==> !matches_at(v@, pat@, j));
        match best {
            Some(b) => {
                assert(is_last_match(v@, pat@, b as int));
                let w = choose|k: int| is_last_match(v@, pat@, k);
                lemma_last_match_unique(v@, pat@, w, b as int);
            },
            None => {
                assert(forall|j: int| 0 <= j ==> !matches_at(v@, pat@, j));
            },
        }
    }
    best
}

/// The copy of `v` between positions `from` and `to`.
pub fn subvec(v: &Vec<char>, from: usize, to: usize) -> (r: Vec<char>)
    requires
        from <= to <= v@.len(),
    ensures
        r@ == v@.subrange(from as int, to as int),
{
    let mut r: Vec<char> = Vec::new();
    let mut i: usize = from;
    while i < to
        invariant
            from <= i <= to <= v@.len(),
            r@ =~= v@.subrange(from as int, i as int),
        decreases to - i,
    {
        r.push(v[i]);
        proof {
            assert(r@ =~= v@.subrange(from as int, i + 1));
        }
        i = i + 1;
    }
    r
}

/// `s` with every occurrence of `a` replaced by `b`.
pub open spec fn spec_replaced(s: Seq<char>, a: char, b: char) -> Seq<char> {
    Seq::new(s.len(), |i: int| if s[i] == a { b } else { s[i] })
}

/// Replaces every occurrence of `a` in `v` by `b`.
pub fn replace_char(v: &Vec<char>, a: char, b: char) -> (r: Vec<char>)
    ensures
        r@ == spec_replaced(v@, a, b),
{
    let mut r: Vec<char> = Vec::new();
    let mut i: usize = 0;
    while i < v.len()
        invariant
            i <= v@.len(),
            r@ =~= spec_replaced(v@, a, b).take(i as int),
        decreases v@.len() - i,
    {
        let c = v[i];
        if c == a {
            r.push(b);
        } else {
            r.push(c);
        }
        proof {
            assert(r@ =~= spec_replaced(v@, a, b).take(i + 1));
        }
        i = i + 1;
    }
    proof {
        assert(spec_replaced(v@, a, b).take(v@.len() as int) =~= spec_replaced(v@, a, b));
    }
    r
}

/// Case-folded code point: ASCII upper-case letters map to their lower-case
/// counterparts, every other character to itself.
pub open spec fn ci_val(c: char) -> int {
    if 65 <= c as u32 <= 90 {
        c as u32 + 32
    } else {
        c as u32 as int
    }
}

/// `pat` occurs at position `i` of `s` up to ASCII case.
pub open spec fn ci_matches_at(s: Seq<char>, pat: Seq<char>, i: int) -> bool {
    &&& 0 <= i
    &&& i + pat.len() <= s.len()
    &&& forall|k: int| 0 <= k < pat.len() ==> ci_val(s[i + k]) == ci_val(pat[k])
}

/// Whether `pat` occurs anywhere in `s`, up to ASCII case.
pub open spec fn spec_contains_ci(s: Seq<char>, pat: Seq<char>) -> bool {
    exists|i: int| ci_matches_at(s, pat, i)
}

fn ci_eq(a: char, b: char) -> (r: bool)
    ensures
        r == (ci_val(a) == ci_val(b)),
{
    let x: u32 = a as u32;
    let y: u32 = b as u32;
    let xf: u32 = if 65 <= x && x <= 90 {
        x + 32
    } else {
        x
    };
    let yf: u32 = if 65 <= y && y <= 90 {
        y + 32
    } else {
        y
    };
    xf == yf
}

fn ci_check_match(v: &Vec<char>, pat: &Vec<char>, i: usize) -> (b: bool)
    requires
        i <= v@.len(),
    ensures
        b == ci_matches_at(v@, pat@, i as int),
{
    if pat.len() > v.len() - i {
        return false;
    }
    let mut k: usize = 0;
    while k < pat.len()
        invariant
            k <= pat@.len(),
            i + pat@.len() <= v@.len(),
            v@.len() <= usize::MAX,
            forall|j: int| 0 <= j < k ==> ci_val(v@[i + j]) == ci_val(pat@[j]),
        decreases pat@.len() - k,
    {
        if !ci_eq(v[i + k], pat[k]) {
            return false;
        }
        k = k + 1;
    }
    true
}

/// Substring test up to ASCII case, the marker check of input discovery.
/// Only the letters A to Z fold; other code points must match exactly.
pub fn contains_ci(v: &Vec<char>, pat: &Vec<char>) -> (b: bool)
    ensures
        b == spec_contains_ci(v@, pat@),
{
    let mut i: usize = 0;
    while i < v.len()
        invariant
            i <= v@.len(),
            forall|j: int| 0 <= j < i ==> !ci_matches_at(v@, pat@, j),
        decreases v@.len() - i,
    {
        if ci_check_match(v, pat, i) {
            return true;
        }
        i = i + 1;
    }
    if ci_check_match(v, pat, i) {
        return true;
    }
    proof {
        assert(forall|j: int| j > v@.len() ==> !ci_matches_at(v@, pat@, j));
        assert(forall|j: int| j < 0 ==> !ci_matches_at(v@, pat@, j));
    }
    false
}

/// Appends a copy of `src` to `dst`.
pub fn append_chars(dst: &mut Vec<char>, src: &Vec<char>)
    ensures
        final(dst)@ == old(dst)@ + src@,
{
    let mut i: usize = 0;
    while i < src.len()
        invariant
            i <= src@.len(),
            dst@ =~= old(dst)@ + src@.take(i as int),
        decreases src@.len() - i,
    {
        dst.push(src[i]);
        proof {
            assert(dst@ =~= old(dst)@ + src@.take(i + 1));
        }
        i = i + 1;
    }
    proof {
        assert(src@.take(src@.len() as int) =~= src@);
        assert(dst@ =~= old(dst)@ + src@);
    }
}

} // verus!
