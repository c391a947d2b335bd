//! Input discovery: sorts the files of a song's directory into the one
//! reference track and the member tracks.

use vstd::prelude::*;
use crate::AudioProcessor;
use crate::errors::DiscoveryError;
use crate::strutil::{str_chars, contains_ci, check_match, spec_contains_ci, matches_at};

verus! {

/// The case-insensitive filename marker of the reference track.
pub open spec fn click_seq() -> Seq<char> {
    "click"@
}

/// The filename suffix of a compressed member track.
pub open spec fn mp3_suffix() -> Seq<char> {
    ".mp3"@
}

/// A file is the reference candidate when its name carries the marker,
/// whatever its ASCII case: the fold covers the letters A to Z only.
pub open spec fn is_reference_name(s: Seq<char>) -> bool {
    spec_contains_ci(s, click_seq())
}

/// A file is a member track when it is not a reference candidate and its
/// name ends in the compressed-audio suffix with a non-empty stem.
pub open spec fn is_member_name(s: Seq<char>) -> bool {
    &&& !is_reference_name(s)
    &&& s.len() > 4
    &&& s.subrange(s.len() - 4, s.len() as int) == mp3_suffix()
}

/// The indices of the member tracks among the first `n` names, in
/// discovery order.
pub open spec fn spec_member_indices(names: Seq<Seq<char>>, n: int) -> Seq<int>
    decreases n,
{
    if n <= 0 {
        Seq::empty()
    } else if is_member_name(names[n - 1]) {
        spec_member_indices(names, n - 1) + seq![n - 1]
    } else {
        spec_member_indices(names, n - 1)
    }
}

impl AudioProcessor {
    /// Splits the files of a song's directory, given in discovery order,
    /// into the reference track (the last name carrying the marker) and the
    /// member tracks (every other compressed file, in order). Fails when no
    /// name carries the marker; a session may have zero members.
    pub fn find_tracks(names: &Vec<String>) -> (r: Result<(usize, Vec<usize>), DiscoveryError>)
        ensures
            match r {
                Ok((click, members)) => {
                    let nv = names@.map_values(|s: String| s@);
                    &&& click < nv.len()
                    &&& is_reference_name(nv[click as int])
                    &&& forall|j: int| click < j < nv.len() ==> !is_reference_name(nv[j])
                    &&& members@.map_values(|i: usize| i as int) == spec_member_indices(
                        nv,
                        nv.len() as int,
                    )
                },
                Err(e) => {
                    let nv = names@.map_values(|s: String| s@);
                    &&& e == DiscoveryError::ReferenceNotFound
                    &&& forall|j: int| 0 <= j < nv.len() ==> !is_reference_name(nv[j])
                },
            },
    {
        let ghost nv = names@.map_values(|s: String| s@);
        let click_pat = str_chars("click");
        let mp3_pat = str_chars(".mp3");
        let mut click: Option<usize> = None;
        let mut members: Vec<usize> = Vec::new();
        let mut i: usize = 0;
        while i < names.len()
            invariant
                i <= names@.len(),
                nv == names@.map_values(|s: String| s@),
                click_pat@ == click_seq(),
                mp3_pat@ == mp3_suffix(),
                match click {
                    Some(c) => c < i && is_reference_name(nv[c as int]) && forall|j: int|
                        c < j < i ==> !is_reference_name(nv[j]),
                    None => forall|j: int| 0 <= j < i ==> !is_reference_name(nv[j]),
                },
                members@.map_values(|k: usize| k as int) == spec_member_indices(nv, i as int),
            decreases names@.len() - i,
        {
            let chars = str_chars(names[i].as_str());
            proof {
                assert(chars@ == nv[i as int]);
            }
            if contains_ci(&chars, &click_pat) {
                click = Some(i);
                proof {
                    assert(!is_member_name(nv[i as int]));
                }
            } else {
                let is_member: bool = if chars.len() > 4 {
                    let m = check_match(&chars, &mp3_pat, chars.len() - 4);
                    proof {
                        reveal_strlit(".mp3");
                        if m {
                            assert(chars@.subrange(
                                chars@.len() - 4,
                                chars@.len() as int,
                            ) =~= mp3_suffix());
                        } else {
                            assert(!(chars@.subrange(chars@.len() - 4, chars@.len() as int)
                                == mp3_suffix()));
                        }
                    }
                    m
                } else {
                    false
                };
                if is_member {
                    members.push(i);
                    proof {
                        assert(members@.map_values(|k: usize| k as int) =~= spec_member_indices(
                            nv,
                            i + 1,
                        ));
                    }
                }
            }
            i = i + 1;
        }
        match click {
            Some(c) => Ok((c, members)),
            None => Err(DiscoveryError::ReferenceNotFound),
        }
    }
}

} // verus!
