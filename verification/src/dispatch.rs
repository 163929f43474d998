//! Dispatch: planning one run — URL normalization, newline detection,
//! option parsing and chunking, all checked before any worker is spawned —
//! and the completion accounting the orchestrating thread performs on the
//! shared worker channel.

use vstd::prelude::*;
use crate::config::{
    param_token, spec_extensions, spec_length_values, spec_normalized_url, spec_status_codes,
    spec_url_scheme_ok, FuzzError, SodaArgs,
};
use crate::partition::{
    chunk_size_for, detect_newline, make_chunks, spec_chunk_size, spec_detect_newline,
    spec_newline_seq, spec_probe, split_wordlist, NewlineStyle,
};
use crate::text::{spec_find, spec_split};

verus! {

/// Message sent from each worker to the dispatcher over the shared
/// completion channel: one `Continue` after every request, whatever its
/// outcome, and exactly one `Finished` after the worker's loop and final
/// buffer flush are done.
#[derive(Clone, Copy, Debug, PartialEq, Eq, Structural)]
pub enum ThreadMessage {
    Finished,
    Continue,
}

/// How many consecutive receive timeouts the dispatcher tolerates before it
/// gives up waiting on the channel and falls back to joining the workers.
pub const MAX_RECV_RETRIES: usize = 10;

/// Everything a run needs once planning succeeded: the normalized base URL,
/// the detected newline style, the word chunks, and the parsed option sets.
pub struct RunPlan {
    /// Base URL every candidate is built from.
    pub base: String,
    /// Newline style the wordlist was split on.
    pub style: NewlineStyle,
    /// The word chunks, one per worker.
    pub chunks: Vec<Vec<String>>,
    /// The chunk size the words were grouped by.
    pub chunk_size: usize,
    /// Extension list for directory-path mode.
    pub exts: Vec<String>,
    /// Accepted status codes.
    pub accepted: Vec<u16>,
    /// Suppressed response-body lengths.
    pub suppressed: Vec<u64>,
}

/// The fatal error planning a run stops on, if any, in the order the checks
/// run: URL scheme, parameter placeholder, newline delimiter, status-code
/// list, length list.
pub open spec fn spec_plan_error(cfg: SodaArgs, contents: Seq<char>) -> Option<FuzzError> {
    if !spec_url_scheme_ok(cfg.url@) {
        Some(FuzzError::BadUrlScheme)
    } else if cfg.fuzz is Parameter && spec_find(cfg.url@, param_token(), 0) < 0 {
        Some(FuzzError::MissingPlaceholder)
    } else if spec_detect_newline(spec_probe(contents)) is None {
        Some(FuzzError::MalformedWordlist)
    } else if spec_status_codes(cfg.status_codes) is None {
        Some(FuzzError::BadStatusCode)
    } else if spec_length_values(cfg.ignore_len) is None {
        Some(FuzzError::BadLengthValue)
    } else {
        None
    }
}

impl SodaArgs {
    /// Plan one run from the wordlist content: validate and normalize the
    /// base URL, detect the newline style on the probe slice, split the
    /// content into words, group them into chunks of
    /// `words / threads` words (20 when unpooled), parse the accepted
    /// status codes and suppressed lengths. Any fatal error aborts before
    /// a single worker is spawned; on success the chunks carry every word
    /// exactly once, in order.
    pub fn plan_run(&self, contents: &str) -> (r: Result<RunPlan, FuzzError>)
        ensures
            match spec_plan_error(*self, contents@) {
                Some(e) => r == Result::<RunPlan, FuzzError>::Err(e),
                None => r is Ok && ({
                    let plan = r->Ok_0;
                    let style = spec_detect_newline(spec_probe(contents@))->0;
                    let words = spec_split(contents@, spec_newline_seq(style));
                    &&& plan.base@ == spec_normalized_url(self.url@, self.fuzz)
                    &&& plan.style == style
                    &&& plan.exts.deep_view() == spec_extensions(self.ext)
                    &&& plan.accepted@ == spec_status_codes(self.status_codes)->0
                    &&& plan.suppressed@ == spec_length_values(self.ignore_len)->0
                    &&& plan.chunk_size == spec_chunk_size(
                        words.len() as int,
                        self.threads as int,
                    )
                    &&& plan.chunk_size >= 1
                    &&& plan.chunks.deep_view().flatten() == words
                    &&& plan.chunks.len() == (words.len() + plan.chunk_size - 1) / (
                    plan.chunk_size as int)
                    &&& forall|k: int|
                        0 <= k < plan.chunks.len() ==> 1 <= #[trigger] plan.chunks@[k].len()
                            <= plan.chunk_size
                    &&& forall|k: int|
                        0 <= k < plan.chunks.len() - 1 ==> #[trigger] plan.chunks@[k].len()
                            == plan.chunk_size
                }),
            },
    {
        let base = match self.normalize_url() {
            Ok(b) => b,
            Err(e) => {
                return Err(e);
            },
        };
        let style = match detect_newline(contents) {
            Ok(s) => s,
            Err(e) => {
                return Err(e);
            },
        };
        let accepted = match self.get_status_codes() {
            Ok(v) => v,
            Err(e) => {
                return Err(e);
            },
        };
        let suppressed = match self.get_length_values() {
            Ok(v) => v,
            Err(e) => {
                return Err(e);
            },
        };
        let exts = self.extension_list();
        let words = split_wordlist(contents, style);
        let chunk_size = chunk_size_for(words.len(), self.threads);
        let chunks = make_chunks(&words, chunk_size);
        Ok(
            RunPlan {
                base,
                style,
                chunks,
                chunk_size,
                exts,
                accepted,
                suppressed,
            },
        )
    }
}

/// The dispatcher's view of worker completion: how many workers were
/// spawned, how many `Finished` messages have arrived, and how many
/// consecutive receive timeouts occurred.
pub struct CompletionTracker {
    /// Number of spawned workers.
    pub expected: usize,
    /// Number of `Finished` messages observed.
    pub finished: usize,
    /// Consecutive receive timeouts so far.
    pub retries: usize,
}

/// The tracker after one channel message: a `Finished` is counted, a
/// `Continue` only proves liveness; either way the streak of consecutive
/// receive timeouts is broken.
pub open spec fn spec_on_message(t: CompletionTracker, msg: ThreadMessage) -> CompletionTracker {
    match msg {
        ThreadMessage::Finished => CompletionTracker {
            expected: t.expected,
            finished: (t.finished + 1) as usize,
            retries: 0,
        },
        ThreadMessage::Continue => CompletionTracker {
            expected: t.expected,
            finished: t.finished,
            retries: 0,
        },
    }
}

/// The tracker after a whole sequence of channel messages, in order.
pub open spec fn spec_apply_messages(
    t: CompletionTracker,
    msgs: Seq<ThreadMessage>,
) -> CompletionTracker
    decreases msgs.len(),
{
    if msgs.len() == 0 {
        t
    } else {
        spec_apply_messages(spec_on_message(t, msgs.first()), msgs.drop_first())
    }
}

/// How many of the messages are `Finished`.
pub open spec fn spec_count_finished(msgs: Seq<ThreadMessage>) -> int
    decreases msgs.len(),
{
    if msgs.len() == 0 {
        0
    } else {
        (if msgs.first() is Finished {
            1int
        } else {
            0int
        }) + spec_count_finished(msgs.drop_first())
    }
}

/// The tracker has seen one completion per spawned worker.
pub open spec fn spec_is_complete(t: CompletionTracker) -> bool {
    t.finished >= t.expected
}

proof fn lemma_count_finished_nonneg(msgs: Seq<ThreadMessage>)
    ensures
        0 <= spec_count_finished(msgs) <= msgs.len(),
    decreases msgs.len(),
{
    if msgs.len() > 0 {
        lemma_count_finished_nonneg(msgs.drop_first());
    }
}

/// Completion accounting: starting from a fresh tracker for `workers`
/// spawned workers, processing any sequence of channel messages counts
/// exactly the `Finished` messages among them — `Continue` messages change
/// nothing — and the tracker reports the run complete exactly when at
/// least `workers` of them have arrived. A dispatcher loop that returns
/// because `is_complete` became true has therefore observed one `Finished`
/// per spawned worker.
pub proof fn lemma_completion_accounting(workers: usize, msgs: Seq<ThreadMessage>)
    requires
        spec_count_finished(msgs) <= usize::MAX,
    ensures
        spec_apply_messages(spec_fresh_tracker(workers), msgs).finished == spec_count_finished(
            msgs,
        ),
        spec_apply_messages(spec_fresh_tracker(workers), msgs).expected == workers,
        spec_is_complete(spec_apply_messages(spec_fresh_tracker(workers), msgs))
            <==> spec_count_finished(msgs) >= workers,
{
    lemma_count_finished_nonneg(msgs);
    lemma_apply_messages_counts(spec_fresh_tracker(workers), msgs);
}

/// A tracker as `CompletionTracker::new` returns it.
pub open spec fn spec_fresh_tracker(workers: usize) -> CompletionTracker {
    CompletionTracker { expected: workers, finished: 0, retries: 0 }
}

proof fn lemma_apply_messages_counts(t: CompletionTracker, msgs: Seq<ThreadMessage>)
    requires
        t.finished + spec_count_finished(msgs) <= usize::MAX,
    ensures
        spec_apply_messages(t, msgs).finished == t.finished + spec_count_finished(msgs),
        spec_apply_messages(t, msgs).expected == t.expected,
    decreases msgs.len(),
{
    lemma_count_finished_nonneg(msgs);
    if msgs.len() > 0 {
        lemma_count_finished_nonneg(msgs.drop_first());
        lemma_apply_messages_counts(spec_on_message(t, msgs.first()), msgs.drop_first());
    }
}

impl CompletionTracker {
    /// A fresh tracker for a run that spawned `workers` workers.
    pub fn new(workers: usize) -> (t: CompletionTracker)
        ensures
            t == spec_fresh_tracker(workers),
    {
        CompletionTracker { expected: workers, finished: 0, retries: 0 }
    }

    /// Account for one received channel message.
    pub fn on_message(&mut self, msg: ThreadMessage)
        requires
            old(self).finished < usize::MAX,
        ensures
            *final(self) == spec_on_message(*old(self), msg),
    {
        match msg {
            ThreadMessage::Finished => {
                self.finished = self.finished + 1;
            },
            ThreadMessage::Continue => {},
        }
        self.retries = 0;
    }

    /// Account for one receive timeout: after `MAX_RECV_RETRIES`
    /// consecutive timeouts the dispatcher gives up waiting on the channel
    /// and falls back to joining every worker handle.
    pub fn on_timeout(&mut self) -> (give_up: bool)
        ensures
            final(self).expected == old(self).expected,
            final(self).finished == old(self).finished,
            give_up <==> old(self).retries >= MAX_RECV_RETRIES,
            give_up ==> final(self).retries == old(self).retries,
            !give_up ==> final(self).retries == old(self).retries + 1,
    {
        if self.retries >= MAX_RECV_RETRIES {
            true
        } else {
            self.retries = self.retries + 1;
            false
        }
    }

    /// Whether every spawned worker has reported completion.
    pub fn is_complete(&self) -> (r: bool)
        ensures
            r == spec_is_complete(*self),
    {
        self.finished >= self.expected
    }
}

} // verus!
