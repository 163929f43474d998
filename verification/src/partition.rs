//! Wordlist partitioning: newline-style detection on a bounded probe of the
//! file, splitting the content into words, and grouping the words into the
//! chunks handed to workers. No word is dropped, duplicated or reordered.

use vstd::prelude::*;
use crate::config::FuzzError;
use crate::text::{spec_split, split_str};

verus! {

broadcast use vstd::seq_lib::group_seq_lib_default, Seq::lemma_flatten_push;

/// The Windows newline delimiter.
pub open spec fn crlf() -> Seq<char> {
    seq!['\r', '\n']
}

/// The Unix newline delimiter.
pub open spec fn lf() -> Seq<char> {
    seq!['\n']
}

/// At most this many leading characters of the wordlist content are probed
/// for the newline style.
pub const DELIM_PROBE_LEN: usize = 256;

/// Fixed chunk size used when the run is unpooled (worker count 0).
pub const UNPOOLED_CHUNK_SIZE: usize = 20;

/// The newline style a wordlist file uses.
#[derive(Clone, Copy, Debug, PartialEq, Eq, Structural)]
pub enum NewlineStyle {
    Crlf,
    Lf,
}

/// The delimiter characters of a newline style.
pub open spec fn spec_newline_seq(style: NewlineStyle) -> Seq<char> {
    match style {
        NewlineStyle::Crlf => crlf(),
        NewlineStyle::Lf => lf(),
    }
}

/// The probe the newline style is detected on: the whole content when it is
/// short, otherwise its leading characters.
pub open spec fn spec_probe(content: Seq<char>) -> Seq<char> {
    if content.len() <= DELIM_PROBE_LEN {
        content
    } else {
        content.take(DELIM_PROBE_LEN as int)
    }
}

/// The newline style the probe reveals: CRLF when splitting on it yields
/// more than one piece, else LF by the same test, else none.
pub open spec fn spec_detect_newline(probe: Seq<char>) -> Option<NewlineStyle> {
    if spec_split(probe, crlf()).len() > 1 {
        Some(NewlineStyle::Crlf)
    } else if spec_split(probe, lf()).len() > 1 {
        Some(NewlineStyle::Lf)
    } else {
        None
    }
}

/// The leading slice of the wordlist content that the newline style is
/// probed on.
pub fn head_slice(content: &str) -> (r: &str)
    ensures
        r@ == spec_probe(content@),
{
    let n = content.unicode_len();
    if n <= DELIM_PROBE_LEN {
        content
    } else {
        content.substring_char(0, DELIM_PROBE_LEN)
    }
}

/// Detect the newline style of the wordlist from its leading probe slice:
/// CRLF is tried first, then LF; when neither splits the probe into more
/// than one piece the wordlist is malformed and the run is aborted.
pub fn detect_newline(content: &str) -> (r: Result<NewlineStyle, FuzzError>)
    ensures
        match spec_detect_newline(spec_probe(content@)) {
            Some(style) => r == Result::<NewlineStyle, FuzzError>::Ok(style),
            None => r == Result::<NewlineStyle, FuzzError>::Err(FuzzError::MalformedWordlist),
        },
{
    proof {
        reveal_strlit("\r\n");
        reveal_strlit("\n");
        assert("\r\n"@ =~= crlf());
        assert("\n"@ =~= lf());
    }
    let probe = head_slice(content);
    if split_str(probe, "\r\n").len() > 1 {
        Ok(NewlineStyle::Crlf)
    } else if split_str(probe, "\n").len() > 1 {
        Ok(NewlineStyle::Lf)
    } else {
        Err(FuzzError::MalformedWordlist)
    }
}

/// Split the whole wordlist content into words on the detected delimiter.
pub fn split_wordlist(content: &str, style: NewlineStyle) -> (words: Vec<String>)
    ensures
        words.deep_view() == spec_split(content@, spec_newline_seq(style)),
        words.len() >= 1,
{
    proof {
        reveal_strlit("\r\n");
        reveal_strlit("\n");
        assert("\r\n"@ =~= crlf());
        assert("\n"@ =~= lf());
    }
    match style {
        NewlineStyle::Crlf => split_str(content, "\r\n"),
        NewlineStyle::Lf => split_str(content, "\n"),
    }
}

/// The chunk size of a run: a fixed small size when unpooled, otherwise the
/// word count divided by the worker count, never less than one.
pub open spec fn spec_chunk_size(total: int, threads: int) -> int {
    if threads == 0 {
        UNPOOLED_CHUNK_SIZE as int
    } else if total / threads == 0 {
        1
    } else {
        total / threads
    }
}

/// Compute the chunk size for a word count and a worker count.
pub fn chunk_size_for(total: usize, threads: usize) -> (r: usize)
    ensures
        r == spec_chunk_size(total as int, threads as int),
        r >= 1,
{
    if threads == 0 {
        UNPOOLED_CHUNK_SIZE
    } else {
        let q = total / threads;
        if q == 0 {
            1
        } else {
            q
        }
    }
}

/// Group the words into chunks of `size` words each, in order; the trailing
/// remainder forms one extra, possibly smaller, chunk. The concatenation of
/// all chunks is exactly the given word sequence: no word is dropped,
/// duplicated or reordered.
pub fn make_chunks(words: &Vec<String>, size: usize) -> (chunks: Vec<Vec<String>>)
    requires
        size >= 1,
    ensures
        chunks.deep_view().flatten() == words.deep_view(),
        forall|k: int| 0 <= k < chunks.len() ==> 1 <= #[trigger] chunks@[k].len() <= size,
        forall|k: int| 0 <= k < chunks.len() - 1 ==> #[trigger] chunks@[k].len() == size,
        chunks.len() == (words.len() + size - 1) / (size as int),
{
    let mut chunks: Vec<Vec<String>> = Vec::new();
    let mut cur: Vec<String> = Vec::new();
    let mut i: usize = 0;
    proof {
        assert(chunks.deep_view().flatten() + cur.deep_view() =~= words.deep_view().take(0));
    }
    while i < words.len()
        invariant
            i <= words.len(),
            size >= 1,
            cur.len() < size,
            i == chunks@.len() * size + cur.len(),
            chunks.deep_view().flatten() + cur.deep_view() == words.deep_view().take(i as int),
            forall|k: int| 0 <= k < chunks.len() ==> #[trigger] chunks@[k].len() == size,
        decreases words.len() - i,
    {
        let ghost flat0 = chunks.deep_view().flatten();
        let ghost cur0 = cur.deep_view();
        cur.push(words[i].clone());
        i = i + 1;
        proof {
            assert(flat0 + cur0 == words.deep_view().take(i - 1));
            assert(cur.deep_view() =~= cur0.push(words.deep_view()[i - 1]));
            assert(words.deep_view().take(i as int) =~= words.deep_view().take(i - 1).push(
                words.deep_view()[i - 1],
            ));
            assert(flat0 + cur.deep_view() =~= (flat0 + cur0).push(words.deep_view()[i - 1]));
            assert(flat0 + cur.deep_view() =~~= words.deep_view().take(i as int));
        }
        if cur.len() == size {
            let ghost prev = chunks.deep_view();
            let ghost oldcount = chunks@.len();
            let ghost curfull = cur.deep_view();
            chunks.push(cur);
            cur = Vec::new();
            proof {
                assert(chunks.deep_view() =~= prev.push(curfull));
                assert(chunks.deep_view().flatten() =~= flat0 + curfull);
                assert(chunks.deep_view().flatten() + cur.deep_view() =~= words.deep_view().take(
                    i as int,
                ));
                assert((oldcount + 1) * size == oldcount * size + size) by (nonlinear_arith);
            }
        }
    }
    proof {
        assert(words.deep_view().take(i as int) =~= words.deep_view());
    }
    if cur.len() > 0 {
        let ghost prev = chunks.deep_view();
        let ghost k = chunks@.len() as int;
        let ghost c = cur.len() as int;
        let ghost curlast = cur.deep_view();
        let ghost flat0 = chunks.deep_view().flatten();
        chunks.push(cur);
        proof {
            assert(chunks.deep_view() =~= prev.push(curlast));
            assert(chunks.deep_view().flatten() =~= flat0 + curlast);
            assert(chunks.deep_view().flatten() =~= words.deep_view());
            assert(words.len() + size - 1 == (k + 1) * size + (c - 1)) by (nonlinear_arith)
                requires
                    words.len() == k * size + c,
            ;
            vstd::arithmetic::div_mod::lemma_fundamental_div_mod_converse(
                words.len() + size - 1,
                size as int,
                k + 1,
                c - 1,
            );
        }
    } else {
        let ghost k = chunks@.len() as int;
        proof {
            assert(chunks.deep_view().flatten() + cur.deep_view() =~= chunks.deep_view().flatten());
            assert(words.len() + size - 1 == k * size + (size - 1)) by (nonlinear_arith)
                requires
                    words.len() == k * size,
            ;
            vstd::arithmetic::div_mod::lemma_fundamental_div_mod_converse(
                words.len() + size - 1,
                size as int,
                k,
                size - 1,
            );
        }
    }
    chunks
}

} // verus!
