//! Candidate construction: how one word of the wordlist becomes one or more
//! fully formed request URLs, and how a whole chunk's words become the
//! ordered request sequence its worker issues.

use vstd::prelude::*;
use crate::config::{param_token, Fuzz};
use crate::text::{replace_str, spec_replace};

verus! {

/// The candidate URLs one word yields. In directory-path mode the word is
/// appended to the base URL, once per configured extension (as
/// `base + word + "." + ext`) or bare when no extensions are configured; in
/// parameter mode the word replaces the `{!}` placeholder in the base URL.
pub open spec fn spec_candidates_for_word(
    base: Seq<char>,
    word: Seq<char>,
    fuzz: Fuzz,
    exts: Seq<Seq<char>>,
) -> Seq<Seq<char>> {
    match fuzz {
        Fuzz::DirectoryPath => if exts.len() == 0 {
            seq![base + word]
        } else {
            Seq::new(exts.len(), |i: int| base + word + seq!['.'] + exts[i])
        },
        Fuzz::Parameter => seq![spec_replace(base, param_token(), word)],
    }
}

/// The ordered request sequence of a whole chunk: each word's candidates in
/// word order.
pub open spec fn spec_chunk_candidates(
    base: Seq<char>,
    words: Seq<Seq<char>>,
    fuzz: Fuzz,
    exts: Seq<Seq<char>>,
) -> Seq<Seq<char>> {
    words.map_values(|w: Seq<char>| spec_candidates_for_word(base, w, fuzz, exts)).flatten()
}

/// Build the candidate URLs one word yields.
pub fn build_candidates(base: &str, word: &str, fuzz: Fuzz, exts: &Vec<String>) -> (r: Vec<
    String,
>)
    ensures
        r.deep_view() == spec_candidates_for_word(base@, word@, fuzz, exts.deep_view()),
        r.len() >= 1,
{
    match fuzz {
        Fuzz::Parameter => {
            proof {
                reveal_strlit("{!}");
                assert("{!}"@ =~= param_token());
            }
            let mut r: Vec<String> = Vec::new();
            r.push(replace_str(base, "{!}", word));
            proof {
                assert(r.deep_view() =~= spec_candidates_for_word(
                    base@,
                    word@,
                    fuzz,
                    exts.deep_view(),
                ));
            }
            r
        },
        Fuzz::DirectoryPath => {
            if exts.len() == 0 {
                let mut s = base.to_owned();
                s.append(word);
                let mut r: Vec<String> = Vec::new();
                r.push(s);
                proof {
                    assert(r.deep_view() =~= spec_candidates_for_word(
                        base@,
                        word@,
                        fuzz,
                        exts.deep_view(),
                    ));
                }
                r
            } else {
                proof {
                    reveal_strlit(".");
                    assert("."@ =~= seq!['.']);
                }
                let ghost target = spec_candidates_for_word(base@, word@, fuzz, exts.deep_view());
                let mut r: Vec<String> = Vec::new();
                let mut i: usize = 0;
                while i < exts.len()
                    invariant
                        i <= exts.len(),
                        exts.len() > 0,
                        fuzz is DirectoryPath,
                        target == spec_candidates_for_word(base@, word@, fuzz, exts.deep_view()),
                        target.len() == exts.len(),
                        r.deep_view() == target.take(i as int),
                    decreases exts.len() - i,
                {
                    let ghost prev = r.deep_view();
                    let mut s = base.to_owned();
                    s.append(word);
                    s.append(".");
                    s.append(exts[i].as_str());
                    r.push(s);
                    proof {
                        reveal_strlit(".");
                        assert("."@ =~= seq!['.']);
                        assert(exts.deep_view()[i as int] == exts@[i as int]@);
                        assert(s@ == base@ + word@ + seq!['.'] + exts.deep_view()[i as int]);
                        assert(target[i as int] == base@ + word@ + seq!['.'] + exts.deep_view()[
                            i as int
                        ]);
                        assert(r.deep_view() =~= prev.push(s@));
                        assert(r.deep_view() =~= target.take(i + 1));
                    }
                    i = i + 1;
                }
                proof {
                    assert(target.take(i as int) =~= target);
                }
                r
            }
        },
    }
}

} // verus!
