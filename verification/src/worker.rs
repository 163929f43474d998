//! The worker: owns one chunk's words, builds candidates with the candidate
//! builder as it walks the words (never precomputing the whole set), hands
//! out the next request URL to issue, classifies every response, and batches
//! the output-file lines of reported responses in its own buffer.
//!
//! The surrounding application drives the worker: it asks for the next
//! request, performs the HTTP GET, reports the outcome back, flushes the
//! buffer when the worker says it is near capacity, and sends the lifecycle
//! messages on the completion channel.

use vstd::prelude::*;
use crate::buffer::{FIXED_BUF_SIZE, U8FixedBuffer};
use crate::candidates::{build_candidates, spec_candidates_for_word, spec_chunk_candidates};
use crate::classify::{build_log_line, should_report, spec_log_line, spec_should_report};
use crate::config::Fuzz;

verus! {

broadcast use Seq::lemma_flatten_push;

/// One worker's entire state: its immutable slice of the run configuration,
/// its chunk of words, its position in the candidate stream, and its output
/// buffer.
pub struct Worker {
    /// Normalized base URL candidates are built from.
    pub base: String,
    /// The run's fuzzing mode.
    pub fuzz: Fuzz,
    /// The run's extension list.
    pub exts: Vec<String>,
    /// This worker's chunk of the wordlist.
    pub words: Vec<String>,
    /// How many words have been expanded into candidates so far.
    pub widx: usize,
    /// Candidates built for the word last expanded.
    pub queue: Vec<String>,
    /// How many entries of `queue` have already been handed out.
    pub qidx: usize,
    /// Batched output-file lines of reported responses.
    pub buffer: U8FixedBuffer,
    /// Whether an output file is configured and reported responses are
    /// logged to the buffer at all.
    pub log_enabled: bool,
    /// Accepted status codes of the run.
    pub accepted: Vec<u16>,
    /// Suppressed body lengths of the run.
    pub suppressed: Vec<u64>,
    /// The request URLs handed out so far, in order.
    pub issued: Ghost<Seq<Seq<char>>>,
}

/// The candidate sequences of the words `words[k..]`, flattened.
pub open spec fn spec_rest_candidates(
    base: Seq<char>,
    words: Seq<Seq<char>>,
    fuzz: Fuzz,
    exts: Seq<Seq<char>>,
    k: int,
) -> Seq<Seq<char>> {
    words.skip(k).map_values(|w: Seq<char>| spec_candidates_for_word(base, w, fuzz, exts)).flatten()
}

/// Expanding one more word extends the consumed candidate sequence by
/// exactly that word's candidates.
proof fn lemma_chunk_take_step(
    base: Seq<char>,
    words: Seq<Seq<char>>,
    fuzz: Fuzz,
    exts: Seq<Seq<char>>,
    k: int,
)
    requires
        0 <= k < words.len(),
    ensures
        spec_chunk_candidates(base, words.take(k + 1), fuzz, exts) == spec_chunk_candidates(
            base,
            words.take(k),
            fuzz,
            exts,
        ) + spec_candidates_for_word(base, words[k], fuzz, exts),
{
    let g = |w: Seq<char>| spec_candidates_for_word(base, w, fuzz, exts);
    assert(words.take(k + 1).map_values(g) =~= words.take(k).map_values(g).push(g(words[k])));
}

/// The whole chunk's candidates split at word `k`: the candidates of the
/// first `k` words followed by those of the rest.
proof fn lemma_chunk_split(
    base: Seq<char>,
    words: Seq<Seq<char>>,
    fuzz: Fuzz,
    exts: Seq<Seq<char>>,
    k: int,
)
    requires
        0 <= k <= words.len(),
    ensures
        spec_chunk_candidates(base, words, fuzz, exts) == spec_chunk_candidates(
            base,
            words.take(k),
            fuzz,
            exts,
        ) + spec_rest_candidates(base, words, fuzz, exts, k),
    decreases words.len() - k,
{
    let g = |w: Seq<char>| spec_candidates_for_word(base, w, fuzz, exts);
    if k == words.len() {
        assert(words.take(k) =~= words);
        assert(words.skip(k).map_values(g) =~= Seq::<Seq<Seq<char>>>::empty());
        assert(spec_rest_candidates(base, words, fuzz, exts, k) =~= Seq::<Seq<char>>::empty());
        assert(spec_chunk_candidates(base, words, fuzz, exts) + Seq::<Seq<char>>::empty()
            =~= spec_chunk_candidates(base, words, fuzz, exts));
    } else {
        lemma_chunk_split(base, words, fuzz, exts, k + 1);
        lemma_chunk_take_step(base, words, fuzz, exts, k);
        vstd::seq_lib::lemma_flatten_concat(
            seq![g(words[k])],
            words.skip(k + 1).map_values(g),
        );
        assert(words.skip(k).map_values(g) =~= seq![g(words[k])] + words.skip(k + 1).map_values(
            g,
        ));
        assert(seq![g(words[k])].flatten() =~= g(words[k]) + Seq::<Seq<char>>::empty());
        assert(g(words[k]) + Seq::<Seq<char>>::empty() =~= g(words[k]));
        assert(spec_rest_candidates(base, words, fuzz, exts, k) == g(words[k])
            + spec_rest_candidates(base, words, fuzz, exts, k + 1));
        assert((spec_chunk_candidates(base, words.take(k), fuzz, exts) + g(words[k]))
            + spec_rest_candidates(base, words, fuzz, exts, k + 1) =~= spec_chunk_candidates(
            base,
            words.take(k),
            fuzz,
            exts,
        ) + (g(words[k]) + spec_rest_candidates(base, words, fuzz, exts, k + 1)));
    }
}

impl Worker {
    /// The full ordered request sequence this worker issues: each word's
    /// candidates, word by word.
    pub open spec fn planned(self) -> Seq<Seq<char>> {
        spec_chunk_candidates(self.base@, self.words.deep_view(), self.fuzz, self.exts.deep_view())
    }

    /// The candidates of the words expanded so far.
    pub open spec fn consumed(self) -> Seq<Seq<char>> {
        spec_chunk_candidates(
            self.base@,
            self.words.deep_view().take(self.widx as int),
            self.fuzz,
            self.exts.deep_view(),
        )
    }

    /// The candidates built but not yet handed out.
    pub open spec fn queued(self) -> Seq<Seq<char>> {
        self.queue.deep_view().skip(self.qidx as int)
    }

    /// Well-formed: the buffer is intact, the cursors are in range, and the
    /// requests handed out so far followed by the pending queue are exactly
    /// the candidates of the words expanded so far.
    pub open spec fn wf(self) -> bool {
        &&& self.buffer.wf()
        &&& self.buffer.cap == FIXED_BUF_SIZE
        &&& self.widx <= self.words.len()
        &&& self.qidx <= self.queue.len()
        &&& self.issued@ + self.queued() == self.consumed()
    }

    /// The settings of `self` and `other` agree; only cursors, buffer and
    /// history may differ.
    pub open spec fn same_settings(self, other: Worker) -> bool {
        &&& self.base == other.base
        &&& self.fuzz == other.fuzz
        &&& self.exts == other.exts
        &&& self.words == other.words
        &&& self.log_enabled == other.log_enabled
        &&& self.accepted == other.accepted
        &&& self.suppressed == other.suppressed
    }

    /// A fresh worker for one chunk: nothing issued, empty buffer.
    pub fn new(
        base: String,
        fuzz: Fuzz,
        exts: Vec<String>,
        words: Vec<String>,
        log_enabled: bool,
        accepted: Vec<u16>,
        suppressed: Vec<u64>,
    ) -> (w: Worker)
        ensures
            w.wf(),
            w.base == base,
            w.fuzz == fuzz,
            w.exts == exts,
            w.words == words,
            w.log_enabled == log_enabled,
            w.accepted == accepted,
            w.suppressed == suppressed,
            w.issued@ == Seq::<Seq<char>>::empty(),
            w.buffer.len == 0,
            w.buffer.contents() == Seq::<u8>::empty(),
    {
        let w = Worker {
            base,
            fuzz,
            exts,
            words,
            widx: 0,
            queue: Vec::new(),
            qidx: 0,
            buffer: U8FixedBuffer::new(),
            log_enabled,
            accepted,
            suppressed,
            issued: Ghost(Seq::empty()),
        };
        proof {
            let g = |w0: Seq<char>| spec_candidates_for_word(
                w.base@,
                w0,
                w.fuzz,
                w.exts.deep_view(),
            );
            assert(w.words.deep_view().take(0) =~= Seq::<Seq<char>>::empty());
            assert(Seq::<Seq<char>>::empty().map_values(g) =~= Seq::<Seq<Seq<char>>>::empty());
            assert(w.consumed() =~= Seq::<Seq<char>>::empty());
            assert(w.queued() =~= Seq::<Seq<char>>::empty());
            assert(w.issued@ + w.queued() =~= w.consumed());
        }
        w
    }

    /// Hand out the next request URL of the candidate stream, or nothing
    /// when the chunk is exhausted. Candidates of a word are built only when
    /// the previous word's candidates have all been handed out.
    pub fn next_request(&mut self) -> (r: Option<String>)
        requires
            old(self).wf(),
        ensures
            final(self).wf(),
            old(self).same_settings(*final(self)),
            final(self).buffer == old(self).buffer,
            final(self).planned() == old(self).planned(),
            match r {
                Some(url) => {
                    &&& old(self).issued@.len() < old(self).planned().len()
                    &&& url@ == old(self).planned()[old(self).issued@.len() as int]
                    &&& final(self).issued@ == old(self).issued@.push(url@)
                },
                None => {
                    &&& old(self).issued@ == old(self).planned()
                    &&& final(self).issued@ == old(self).issued@
                },
            },
    {
        if self.qidx >= self.queue.len() {
            if self.widx >= self.words.len() {
                proof {
                    assert(self.queued() =~= Seq::<Seq<char>>::empty());
                    assert(self.issued@ + self.queued() =~= self.issued@);
                    assert(self.words.deep_view().take(self.widx as int)
                        =~= self.words.deep_view());
                }
                return None;
            }
            // expand the next word into its candidates
            let ghost pre = *self;
            let cands = build_candidates(
                self.base.as_str(),
                self.words[self.widx].as_str(),
                self.fuzz,
                &self.exts,
            );
            self.queue = cands;
            self.qidx = 0;
            self.widx = self.widx + 1;
            proof {
                assert(pre.queued() =~= Seq::<Seq<char>>::empty());
                assert(pre.issued@ + pre.queued() =~= pre.issued@);
                assert(self.words.deep_view()[pre.widx as int] == self.words@[pre.widx as int]@);
                lemma_chunk_take_step(
                    self.base@,
                    self.words.deep_view(),
                    self.fuzz,
                    self.exts.deep_view(),
                    pre.widx as int,
                );
                assert(self.queued() =~= self.queue.deep_view());
                assert(self.consumed() == pre.consumed() + self.queue.deep_view());
                assert(self.issued@ + self.queued() =~= self.consumed());
            }
        }
        let ghost cur = *self;
        let url = self.queue[self.qidx].clone();
        self.qidx = self.qidx + 1;
        proof {
            self.issued@ = cur.issued@.push(url@);
            assert(url@ == cur.queue.deep_view()[cur.qidx as int]);
            assert(cur.queued() =~= seq![url@] + self.queued());
            assert((cur.issued@.push(url@)) + self.queued() =~= cur.issued@ + (seq![url@]
                + self.queued()));
            assert(self.issued@ + self.queued() =~= self.consumed());
            lemma_chunk_split(
                cur.base@,
                cur.words.deep_view(),
                cur.fuzz,
                cur.exts.deep_view(),
                cur.widx as int,
            );
            assert(cur.planned() == cur.consumed() + spec_rest_candidates(
                cur.base@,
                cur.words.deep_view(),
                cur.fuzz,
                cur.exts.deep_view(),
                cur.widx as int,
            ));
            assert(cur.planned()[cur.issued@.len() as int] == url@);
        }
        Some(url)
    }

    /// Record one response: decide whether it is reported and, when it is
    /// and an output file is configured, append its log line to the buffer.
    /// A line that would overflow the buffer is dropped; the worker flushes
    /// within the safety margin before each request, so only an oversized
    /// single line is ever dropped.
    pub fn record_response(
        &mut self,
        request: &str,
        status: u16,
        content_length: Option<u64>,
    ) -> (reported: bool)
        requires
            old(self).wf(),
        ensures
            final(self).wf(),
            old(self).same_settings(*final(self)),
            final(self).widx == old(self).widx,
            final(self).qidx == old(self).qidx,
            final(self).queue == old(self).queue,
            final(self).issued == old(self).issued,
            reported == spec_should_report(
                status,
                content_length,
                old(self).accepted@,
                old(self).suppressed@,
            ),
            ({
                let line = spec_log_line(request@, status);
                if reported && old(self).log_enabled && old(self).buffer.len + line.len() <= old(
                    self,
                ).buffer.cap {
                    &&& final(self).buffer.len == old(self).buffer.len + line.len()
                    &&& final(self).buffer.contents() == old(self).buffer.contents()
                        + line.map_values(|c: char| c as u8)
                    &&& final(self).buffer.cap == old(self).buffer.cap
                } else {
                    final(self).buffer == old(self).buffer
                }
            }),
    {
        let reported = should_report(status, content_length, &self.accepted, &self.suppressed);
        if reported && self.log_enabled {
            let line = build_log_line(request, status);
            let _ = self.buffer.push_str(line.as_str());
        }
        reported
    }
}

} // verus!
