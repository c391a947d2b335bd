//! The session namer: normalizes raw filenames into the human titles and
//! identifiers shared by all downstream artifacts.

use vstd::prelude::*;
use crate::AudioProcessor;
use crate::errors::NamingError;
use crate::strutil::{
    str_chars, chars_to_string, find_char, find_subseq, rfind_subseq, subvec, replace_char,
    spec_replaced, spec_find, spec_find_char, spec_rfind, matches_at,
};

verus! {

/// The marker that encloses a track's human name inside a raw filename.
pub open spec fn marker_seq() -> Seq<char> {
    "_Custom_Backing_Track)"@
}

/// The normalized form of a raw filename: the characters between the first
/// `'('` and the marker that follows it, underscores turned into spaces; if
/// either is missing, the whole name with underscores turned into spaces.
pub open spec fn spec_normalize(s: Seq<char>) -> Seq<char> {
    match spec_find_char(s, '(') {
        Some(i) => match spec_find(s, marker_seq(), i) {
            Some(j) => spec_replaced(s.subrange(i + 1, j), '_', ' '),
            None => spec_replaced(s, '_', ' '),
        },
        None => spec_replaced(s, '_', ' '),
    }
}

/// The Unicode uppercase mapping of a character, which may be longer than
/// one character.
pub uninterp spec fn spec_upper_chars(c: char) -> Seq<char>;

/// The first character of the Unicode lowercase mapping of a character.
pub uninterp spec fn spec_lower_first(c: char) -> char;

/// Whether a character has the Unicode White_Space property.
pub uninterp spec fn spec_is_whitespace(c: char) -> bool;

/// Relies on char::to_uppercase: the uppercase mapping depends on the
/// character alone and yields at least one character.
#[verifier::external_body]
fn char_upper(c: char) -> (r: Vec<char>)
    ensures
        r@ == spec_upper_chars(c),
        r@.len() >= 1,
{
    c.to_uppercase().collect()
}

/// Relies on char::to_lowercase: the lowercase mapping depends on the
/// character alone and yields at least one character; this returns its
/// first character.
#[verifier::external_body]
fn char_lower_first(c: char) -> (r: char)
    ensures
        r == spec_lower_first(c),
{
    c.to_lowercase().next().unwrap_or(c)
}

/// Relies on char::is_whitespace: the Unicode White_Space property, which a
/// plain space has and an underscore does not.
#[verifier::external_body]
fn is_whitespace_char(c: char) -> (r: bool)
    ensures
        r == spec_is_whitespace(c),
        c == ' ' ==> r,
        c == '_' ==> !r,
{
    c.is_whitespace()
}

/// The longest whitespace-free prefix of `s`.
pub open spec fn spec_take_word(s: Seq<char>) -> Seq<char>
    decreases s.len(),
{
    if s.len() == 0 || spec_is_whitespace(s[0]) {
        Seq::empty()
    } else {
        seq![s[0]] + spec_take_word(s.drop_first())
    }
}

pub proof fn lemma_take_word_len(s: Seq<char>)
    ensures
        spec_take_word(s).len() <= s.len(),
        s.len() > 0 && !spec_is_whitespace(s[0]) ==> spec_take_word(s).len() >= 1,
    decreases s.len(),
{
    if s.len() > 0 && !spec_is_whitespace(s[0]) {
        lemma_take_word_len(s.drop_first());
    }
}

/// The whitespace-separated words of `s`, in order.
pub open spec fn spec_words(s: Seq<char>) -> Seq<Seq<char>>
    decreases s.len(),
    via spec_words_decreases
{
    if s.len() == 0 {
        Seq::empty()
    } else if spec_is_whitespace(s[0]) {
        spec_words(s.drop_first())
    } else {
        seq![spec_take_word(s)] + spec_words(s.skip(spec_take_word(s).len() as int))
    }
}

#[via_fn]
proof fn spec_words_decreases(s: Seq<char>) {
    if s.len() > 0 && !spec_is_whitespace(s[0]) {
        lemma_take_word_len(s);
    }
}

/// A word with its first character mapped to uppercase and the rest to
/// lowercase.
pub open spec fn spec_cap_word(w: Seq<char>) -> Seq<char> {
    if w.len() == 0 {
        w
    } else {
        spec_upper_chars(w[0]) + w.skip(1).map_values(|c: char| spec_lower_first(c))
    }
}

/// The words joined by single spaces.
pub open spec fn spec_join_space(ws: Seq<Seq<char>>) -> Seq<char>
    decreases ws.len(),
{
    if ws.len() == 0 {
        Seq::empty()
    } else if ws.len() == 1 {
        ws[0]
    } else {
        ws[0] + seq![' '] + spec_join_space(ws.drop_first())
    }
}

/// The cleaned-up form of a song title: underscores turned into spaces,
/// split into words, each word capitalized, joined by single spaces.
pub open spec fn spec_title(s: Seq<char>) -> Seq<char> {
    spec_join_space(
        spec_words(spec_replaced(s, '_', ' ')).map_values(|w: Seq<char>| spec_cap_word(w)),
    )
}

proof fn lemma_join_push(ws: Seq<Seq<char>>, w: Seq<char>)
    requires
        ws.len() >= 1,
    ensures
        spec_join_space(ws.push(w)) == spec_join_space(ws) + seq![' '] + w,
    decreases ws.len(),
{
    if ws.len() == 1 {
        assert(ws.push(w).drop_first() =~= seq![w]);
        assert(spec_join_space(seq![w]) == w);
        assert(ws.push(w)[0] == ws[0]);
        assert(spec_join_space(ws.push(w)) == ws[0] + seq![' '] + w);
    } else {
        assert(ws.push(w).drop_first() =~= ws.drop_first().push(w));
        lemma_join_push(ws.drop_first(), w);
        assert(spec_join_space(ws.push(w)) == ws[0] + seq![' '] + (spec_join_space(
            ws.drop_first(),
        ) + seq![' '] + w));
        assert(ws[0] + seq![' '] + (spec_join_space(ws.drop_first()) + seq![' '] + w) =~= (ws[0]
            + seq![' '] + spec_join_space(ws.drop_first())) + seq![' '] + w);
    }
}

fn scan_word_end(v: &Vec<char>, i: usize) -> (j: usize)
    requires
        i < v@.len(),
        !spec_is_whitespace(v@[i as int]),
    ensures
        i < j <= v@.len(),
        forall|k: int| i <= k < j ==> !spec_is_whitespace(v@[k]),
        j == v@.len() || spec_is_whitespace(v@[j as int]),
{
    let mut j: usize = i;
    while j < v.len()
        invariant
            i <= j <= v@.len(),
            !spec_is_whitespace(v@[i as int]),
            forall|k: int| i <= k < j ==> !spec_is_whitespace(v@[k]),
        decreases v@.len() - j,
    {
        let c = v[j];
        if is_whitespace_char(c) {
            proof {
                assert(spec_is_whitespace(v@[j as int]));
                assert(j != i);
            }
            return j;
        }
        j = j + 1;
    }
    j
}

proof fn lemma_take_word_is_prefix(s: Seq<char>, n: int)
    requires
        0 <= n <= s.len(),
        forall|k: int| 0 <= k < n ==> !spec_is_whitespace(s[k]),
        n == s.len() || spec_is_whitespace(s[n]),
    ensures
        spec_take_word(s) == s.subrange(0, n),
    decreases n,
{
    if n == 0 {
        assert(spec_take_word(s) =~= s.subrange(0, 0));
    } else {
        lemma_take_word_is_prefix(s.drop_first(), n - 1);
        assert(seq![s[0]] + s.drop_first().subrange(0, n - 1) =~= s.subrange(0, n));
    }
}

fn split_words(v: &Vec<char>) -> (ws: Vec<Vec<char>>)
    ensures
        ws@.map_values(|w: Vec<char>| w@) == spec_words(v@),
{
    let mut ws: Vec<Vec<char>> = Vec::new();
    let mut i: usize = 0;
    proof {
        assert(v@.skip(0) =~= v@);
        assert(ws@.map_values(|w: Vec<char>| w@) =~= Seq::<Seq<char>>::empty());
        assert(Seq::<Seq<char>>::empty() + spec_words(v@) =~= spec_words(v@));
    }
    while i < v.len()
        invariant
            i <= v@.len(),
            spec_words(v@) == ws@.map_values(|w: Vec<char>| w@) + spec_words(v@.skip(i as int)),
        decreases v@.len() - i,
    {
        if is_whitespace_char(v[i]) {
            proof {
                assert(v@.skip(i as int).drop_first() =~= v@.skip(i + 1));
                assert(spec_words(v@.skip(i as int)) == spec_words(v@.skip(i + 1)));
            }
            i = i + 1;
        } else {
            let j = scan_word_end(v, i);
            let w = subvec(v, i, j);
            proof {
                let tail = v@.skip(i as int);
                lemma_take_word_is_prefix(tail, j - i);
                assert(tail.subrange(0, j - i) =~= v@.subrange(i as int, j as int));
                assert(spec_take_word(tail) == w@);
                assert(tail.skip((j - i) as int) =~= v@.skip(j as int));
                assert(spec_words(tail) == seq![w@] + spec_words(v@.skip(j as int)));
                assert(ws@.push(w).map_values(|x: Vec<char>| x@) =~= ws@.map_values(
                    |x: Vec<char>| x@,
                ).push(w@));
                assert(ws@.map_values(|x: Vec<char>| x@) + (seq![w@] + spec_words(
                    v@.skip(j as int),
                )) =~= ws@.map_values(|x: Vec<char>| x@).push(w@) + spec_words(v@.skip(j as int)));
            }
            ws.push(w);
            i = j;
        }
    }
    proof {
        assert(v@.skip(v@.len() as int) =~= Seq::<char>::empty());
        assert(spec_words(Seq::<char>::empty()) =~= Seq::<Seq<char>>::empty());
        assert(ws@.map_values(|w: Vec<char>| w@) + Seq::<Seq<char>>::empty() =~= ws@.map_values(
            |w: Vec<char>| w@,
        ));
    }
    ws
}

fn cap_word(w: &Vec<char>) -> (r: Vec<char>)
    ensures
        r@ == spec_cap_word(w@),
{
    if w.len() == 0 {
        let r: Vec<char> = Vec::new();
        proof {
            assert(r@ =~= spec_cap_word(w@));
        }
        return r;
    }
    let mut r = char_upper(w[0]);
    let mut k: usize = 1;
    while k < w.len()
        invariant
            1 <= k <= w@.len(),
            r@ =~= spec_upper_chars(w@[0]) + w@.subrange(1, k as int).map_values(
                |c: char| spec_lower_first(c),
            ),
        decreases w@.len() - k,
    {
        r.push(char_lower_first(w[k]));
        proof {
            assert(r@ =~= spec_upper_chars(w@[0]) + w@.subrange(1, k + 1).map_values(
                |c: char| spec_lower_first(c),
            ));
        }
        k = k + 1;
    }
    proof {
        assert(w@.subrange(1, w@.len() as int) =~= w@.skip(1));
        assert(r@ =~= spec_cap_word(w@));
    }
    r
}

/// `s` without its leading whitespace.
pub open spec fn spec_trim_start(s: Seq<char>) -> Seq<char>
    decreases s.len(),
{
    if s.len() > 0 && spec_is_whitespace(s[0]) {
        spec_trim_start(s.drop_first())
    } else {
        s
    }
}

/// `s` without its trailing whitespace.
pub open spec fn spec_trim_end(s: Seq<char>) -> Seq<char>
    decreases s.len(),
{
    if s.len() > 0 && spec_is_whitespace(s.last()) {
        spec_trim_end(s.drop_last())
    } else {
        s
    }
}

/// `s` without leading and trailing whitespace.
pub open spec fn spec_trim(s: Seq<char>) -> Seq<char> {
    spec_trim_end(spec_trim_start(s))
}

/// The opening tag that precedes the song title in a song page.
pub open spec fn h1_open_seq() -> Seq<char> {
    "<h1 class=\"song-details__title\""@
}

/// The closing tag that follows the song title.
pub open spec fn h1_close_seq() -> Seq<char> {
    "</h1>"@
}

/// The advertised suffix removed from the end of a song title.
pub open spec fn title_suffix_seq() -> Seq<char> {
    " - Custom Backing Track MP3"@
}

/// The song title carried by a song page: the trimmed text between the
/// title heading's opening and closing tags, truncated at the last
/// occurrence of the advertised suffix.
pub open spec fn spec_title_from_html(body: Seq<char>) -> Option<Seq<char>> {
    match spec_find(body, h1_open_seq(), 0) {
        Some(ts) => match spec_find(body, h1_close_seq(), ts) {
            Some(j) => {
                let fragment = body.subrange(ts, j);
                match spec_find_char(fragment, '>') {
                    Some(cs) => {
                        let t = spec_trim(fragment.subrange(cs + 1, fragment.len() as int));
                        match spec_rfind(t, title_suffix_seq()) {
                            Some(idx) => Some(t.take(idx)),
                            None => Some(t),
                        }
                    },
                    None => None,
                }
            },
            None => None,
        },
        None => None,
    }
}

fn first_non_ws(v: &Vec<char>) -> (a: usize)
    ensures
        a <= v@.len(),
        forall|k: int| 0 <= k < a ==> spec_is_whitespace(v@[k]),
        a == v@.len() || !spec_is_whitespace(v@[a as int]),
{
    let mut a: usize = 0;
    while a < v.len()
        invariant
            a <= v@.len(),
            forall|k: int| 0 <= k < a ==> spec_is_whitespace(v@[k]),
        decreases v@.len() - a,
    {
        if !is_whitespace_char(v[a]) {
            return a;
        }
        a = a + 1;
    }
    a
}

fn last_non_ws_from(v: &Vec<char>, a: usize) -> (b: usize)
    requires
        a <= v@.len(),
    ensures
        a <= b <= v@.len(),
        forall|k: int| b <= k < v@.len() ==> spec_is_whitespace(v@[k]),
        b == a || !spec_is_whitespace(v@[b - 1]),
{
    let mut b: usize = v.len();
    while b > a
        invariant
            a <= b <= v@.len(),
            forall|k: int| b <= k < v@.len() ==> spec_is_whitespace(v@[k]),
        decreases b,
    {
        if !is_whitespace_char(v[b - 1]) {
            return b;
        }
        b = b - 1;
    }
    b
}

proof fn lemma_trim_start_skips(s: Seq<char>, a: int)
    requires
        0 <= a <= s.len(),
        forall|k: int| 0 <= k < a ==> spec_is_whitespace(s[k]),
        a == s.len() || !spec_is_whitespace(s[a]),
    ensures
        spec_trim_start(s) == s.skip(a),
    decreases a,
{
    if a == 0 {
        assert(s.skip(0) =~= s);
    } else {
        assert(spec_is_whitespace(s[0]));
        lemma_trim_start_skips(s.drop_first(), a - 1);
        assert(s.drop_first().skip(a - 1) =~= s.skip(a));
    }
}

proof fn lemma_trim_end_takes(s: Seq<char>, b: int)
    requires
        0 <= b <= s.len(),
        forall|k: int| b <= k < s.len() ==> spec_is_whitespace(s[k]),
        b == 0 || !spec_is_whitespace(s[b - 1]),
    ensures
        spec_trim_end(s) == s.take(b),
    decreases s.len() - b,
{
    if b == s.len() {
        assert(s.take(b) =~= s);
    } else {
        assert(spec_is_whitespace(s.last()));
        lemma_trim_end_takes(s.drop_last(), b);
        assert(s.drop_last().take(b) =~= s.take(b));
    }
}

/// Trims leading and trailing whitespace.
fn trim_chars(v: &Vec<char>) -> (r: Vec<char>)
    ensures
        r@ == spec_trim(v@),
{
    let a = first_non_ws(v);
    let b = last_non_ws_from(v, a);
    let r = subvec(v, a, b);
    proof {
        lemma_trim_start_skips(v@, a as int);
        let s1 = v@.skip(a as int);
        lemma_trim_end_takes(s1, b - a);
        assert(s1.take(b - a) =~= v@.subrange(a as int, b as int));
    }
    r
}

/// The character-level normalization behind `normalize_track_name`.
pub fn normalize_chars(v: &Vec<char>) -> (r: Vec<char>)
    ensures
        r@ == spec_normalize(v@),
{
    let marker = str_chars("_Custom_Backing_Track)");
    match find_char(v, '(') {
        Some(i) => {
            match find_subseq(v, &marker, i) {
                Some(j) => {
                    proof {
                        reveal_strlit("_Custom_Backing_Track)");
                        assert(matches_at(v@, marker_seq(), j as int));
                        assert(v@.subrange(j as int, j + marker_seq().len() as int)[0]
                            == marker_seq()[0]);
                        assert(v@[j as int] == '_');
                        assert(v@[i as int] == '(');
                        assert(j > i);
                    }
                    replace_char(&subvec(v, i + 1, j), '_', ' ')
                },
                None => replace_char(v, '_', ' '),
            }
        },
        None => replace_char(v, '_', ' '),
    }
}

/// The file stem of a name: everything before the last dot, unless the
/// dot starts the name or there is none.
pub open spec fn spec_stem(s: Seq<char>) -> Seq<char> {
    match spec_rfind(s, seq!['.']) {
        Some(i) => if i > 0 {
            s.take(i)
        } else {
            s
        },
        None => s,
    }
}

/// The file stem of a name, character-level.
pub fn file_stem_chars(v: &Vec<char>) -> (r: Vec<char>)
    ensures
        r@ == spec_stem(v@),
{
    let dot = str_chars(".");
    proof {
        reveal_strlit(".");
        assert(dot@ =~= seq!['.']);
    }
    match rfind_subseq(v, &dot) {
        Some(i) => {
            if i > 0 {
                let r = subvec(v, 0, i);
                proof {
                    assert(r@ =~= v@.take(i as int));
                }
                r
            } else {
                subvec(v, 0, v.len())
            }
        },
        None => subvec(v, 0, v.len()),
    }
}

impl AudioProcessor {
    /// The song title of a song page, if the page carries one.
    pub fn title_from_html(body: &str) -> (r: Option<String>)
        ensures
            match r {
                Some(t) => spec_title_from_html(body@) == Some(t@),
                None => spec_title_from_html(body@) is None,
            },
    {
        let v = str_chars(body);
        let h1_open = str_chars("<h1 class=\"song-details__title\"");
        let h1_close = str_chars("</h1>");
        let suffix = str_chars(" - Custom Backing Track MP3");
        let ts = match find_subseq(&v, &h1_open, 0) {
            Some(ts) => ts,
            None => {
                return None;
            },
        };
        let j = match find_subseq(&v, &h1_close, ts) {
            Some(j) => j,
            None => {
                return None;
            },
        };
        let fragment = subvec(&v, ts, j);
        let cs = match find_char(&fragment, '>') {
            Some(cs) => cs,
            None => {
                return None;
            },
        };
        let content = subvec(&fragment, cs + 1, fragment.len());
        let trimmed = trim_chars(&content);
        proof {
            assert(content@ =~= fragment@.subrange(cs + 1, fragment@.len() as int));
        }
        let out = match rfind_subseq(&trimmed, &suffix) {
            Some(idx) => {
                let cut = subvec(&trimmed, 0, idx);
                proof {
                    assert(cut@ =~= trimmed@.take(idx as int));
                }
                cut
            },
            None => trimmed,
        };
        Some(chars_to_string(&out))
    }

    /// Cleans up a raw song title: underscores become spaces, each word is
    /// capitalized, words are joined by single spaces. A title without any
    /// words is rejected.
    pub fn format_song_title(song_title: &str) -> (r: Result<String, NamingError>)
        ensures
            match r {
                Ok(t) => {
                    &&& spec_words(spec_replaced(song_title@, '_', ' ')).len() > 0
                    &&& t@ == spec_title(song_title@)
                },
                Err(e) => {
                    &&& e == NamingError::EmptyTitle
                    &&& spec_words(spec_replaced(song_title@, '_', ' ')).len() == 0
                },
            },
    {
        let v = str_chars(song_title);
        let cleaned = replace_char(&v, '_', ' ');
        let words = split_words(&cleaned);
        if words.len() == 0 {
            return Err(NamingError::EmptyTitle);
        }
        let ghost capped_words = spec_words(cleaned@).map_values(|w: Seq<char>| spec_cap_word(w));
        let mut out: Vec<char> = Vec::new();
        let mut k: usize = 0;
        while k < words.len()
            invariant
                k <= words@.len(),
                words@.map_values(|w: Vec<char>| w@) == spec_words(cleaned@),
                capped_words == spec_words(cleaned@).map_values(|w: Seq<char>| spec_cap_word(w)),
                k == 0 ==> out@.len() == 0,
                k >= 1 ==> out@ == spec_join_space(capped_words.take(k as int)),
            decreases words@.len() - k,
        {
            if k > 0 {
                out.push(' ');
            }
            let cap = cap_word(&words[k]);
            proof {
                assert(words@.map_values(|w: Vec<char>| w@)[k as int] == words@[k as int]@);
                assert(cap@ == capped_words[k as int]);
            }
            crate::strutil::append_chars(&mut out, &cap);
            proof {
                if k == 0 {
                    assert(capped_words.take(1) =~= seq![capped_words[0]]);
                    assert(spec_join_space(seq![capped_words[0]]) == capped_words[0]);
                    assert(out@ =~= spec_join_space(capped_words.take(1)));
                } else {
                    assert(capped_words.take(k + 1) =~= capped_words.take(k as int).push(
                        capped_words[k as int],
                    ));
                    lemma_join_push(capped_words.take(k as int), capped_words[k as int]);
                    assert(out@ =~= spec_join_space(capped_words.take(k as int)) + seq![' ']
                        + capped_words[k as int]);
                }
            }
            k = k + 1;
        }
        proof {
            assert(capped_words.take(capped_words.len() as int) =~= capped_words);
            assert(out@ == spec_title(song_title@));
        }
        Ok(chars_to_string(&out))
    }

    /// Extracts the human track name from a raw filename.
    pub fn normalize_track_name(filename: &str) -> (r: String)
        ensures
            r@ == spec_normalize(filename@),
    {
        let v = str_chars(filename);
        let out = normalize_chars(&v);
        chars_to_string(&out)
    }
}

} // verus!
