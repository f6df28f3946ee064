//! Sliding window flow control for chunk transfers: bounds the number of
//! unacknowledged chunks, tracks acknowledgements (in or out of order) and
//! hands back chunks whose acknowledgement timed out.
//!
//! Times are millisecond readings of a clock supplied by the caller.

use std::collections::HashSet;
use vstd::prelude::*;
use vstd::std_specs::hash::group_hash_axioms;

verus! {

broadcast use group_hash_axioms;

/// Configuration for the sliding window.
#[derive(Debug, Clone, Copy)]
pub struct WindowConfig {
    /// Maximum number of chunks in flight at once
    pub max_window_size: usize,
    /// Acknowledgement timeout in milliseconds
    pub ack_timeout_ms: u64,
    /// Maximum number of retries per chunk
    pub max_retries: u32,
}

impl Default for WindowConfig {
    fn default() -> (r: Self)
        ensures
            r.max_window_size == 16,
            r.ack_timeout_ms == 10_000,
            r.max_retries == 3,
    {
        WindowConfig { max_window_size: 16, ack_timeout_ms: 10_000, max_retries: 3 }
    }
}

/// A chunk that was sent but not yet acknowledged.
#[derive(Debug, Clone)]
pub struct InFlightChunk {
    /// Chunk index
    pub chunk_index: u32,
    /// Clock reading (ms) when the chunk was sent
    pub sent_at_ms: u64,
    /// How many times this chunk has been re-sent
    pub retry_count: u32,
    /// The bytes that went on the wire (for retransmission)
    pub data: Vec<u8>,
    /// Uncompressed size
    pub uncompressed_size: u32,
    /// Checksum
    pub checksum: u32,
}

/// Result of processing an acknowledgement.
#[derive(Debug, PartialEq, Eq, Structural, Clone, Copy)]
pub enum AckResult {
    /// The acknowledgement was new
    Success,
    /// The chunk had already been acknowledged
    Duplicate,
    /// The index is not a chunk of the file; the acknowledgement is ignored
    OutOfRange,
}

/// Whether two in-flight entries never share a chunk index.
pub open spec fn unique_keys(s: Seq<InFlightChunk>) -> bool {
    forall|i: int, j: int|
        0 <= i < s.len() && 0 <= j < s.len() && i != j ==> s[i].chunk_index != s[j].chunk_index
}

/// Whether some in-flight entry has chunk index `k`.
pub open spec fn has_key(s: Seq<InFlightChunk>, k: u32) -> bool {
    exists|j: int| 0 <= j < s.len() && s[j].chunk_index == k
}

/// The in-flight table after recording `c`: the entry with the same index
/// is replaced in place, otherwise `c` is appended.
pub open spec fn insert_chunk(s: Seq<InFlightChunk>, c: InFlightChunk) -> Seq<InFlightChunk> {
    if has_key(s, c.chunk_index) {
        s.update(choose|j: int| 0 <= j < s.len() && s[j].chunk_index == c.chunk_index, c)
    } else {
        s.push(c)
    }
}

/// The entries of `s` that satisfy `keep`, in order.
pub open spec fn keep_where(s: Seq<InFlightChunk>, keep: spec_fn(InFlightChunk) -> bool) -> Seq<
    InFlightChunk,
>
    decreases s.len(),
{
    if s.len() == 0 {
        s
    } else {
        let rest = keep_where(s.drop_last(), keep);
        if keep(s.last()) {
            rest.push(s.last())
        } else {
            rest
        }
    }
}

/// The in-flight table without the entry for chunk `k` (order kept).
pub open spec fn without_key(s: Seq<InFlightChunk>, k: u32) -> Seq<InFlightChunk> {
    keep_where(s, |c: InFlightChunk| c.chunk_index != k)
}

/// Whether chunk `c` has waited longer than `timeout` at clock `now`
/// (a clock reading before the send time counts as no wait).
pub open spec fn timed_out(c: InFlightChunk, now: u64, timeout: u64) -> bool {
    now > c.sent_at_ms && now - c.sent_at_ms > timeout
}

/// The entries that have not timed out (order kept).
pub open spec fn still_waiting(s: Seq<InFlightChunk>, now: u64, timeout: u64) -> Seq<InFlightChunk> {
    keep_where(s, |c: InFlightChunk| !timed_out(c, now, timeout))
}

/// The chunk `c` with one more retry counted.
pub open spec fn bump_retry(c: InFlightChunk) -> InFlightChunk {
    InFlightChunk { retry_count: (c.retry_count + 1) as u32, ..c }
}

/// The timed-out entries, each with one more retry counted, that are still
/// within the retry budget (order kept).
pub open spec fn due_for_retry(s: Seq<InFlightChunk>, now: u64, timeout: u64, max_retries: u32) -> Seq<
    InFlightChunk,
>
    decreases s.len(),
{
    if s.len() == 0 {
        s
    } else {
        let rest = due_for_retry(s.drop_last(), now, timeout, max_retries);
        if timed_out(s.last(), now, timeout) && s.last().retry_count + 1 <= max_retries {
            rest.push(bump_retry(s.last()))
        } else {
            rest
        }
    }
}

/// Indices of entries whose retry count exceeds the budget (order kept).
pub open spec fn failed_indices(s: Seq<InFlightChunk>, max_retries: u32) -> Seq<u32>
    decreases s.len(),
{
    if s.len() == 0 {
        Seq::empty()
    } else {
        let rest = failed_indices(s.drop_last(), max_retries);
        if s.last().retry_count > max_retries {
            rest.push(s.last().chunk_index)
        } else {
            rest
        }
    }
}

/// What filtering keeps: every remaining entry comes from the table and
/// satisfies the filter, indices stay unique and retry counts stay bounded.
proof fn lemma_keep_where(s: Seq<InFlightChunk>, keep: spec_fn(InFlightChunk) -> bool)
    ensures
        forall|i: int|
            0 <= i < keep_where(s, keep).len() ==> exists|j: int|
                0 <= j < s.len() && #[trigger] keep_where(s, keep)[i] == s[j],
        forall|i: int| 0 <= i < keep_where(s, keep).len() ==> keep(#[trigger] keep_where(s, keep)[i]),
        unique_keys(s) ==> unique_keys(keep_where(s, keep)),
        (forall|i: int| 0 <= i < s.len() ==> #[trigger] s[i].retry_count < u32::MAX) ==> (forall|
            i: int,
        | 0 <= i < keep_where(s, keep).len() ==> #[trigger] keep_where(s, keep)[i].retry_count
            < u32::MAX),
    decreases s.len(),
{
    if s.len() > 0 {
        let p = s.drop_last();
        lemma_keep_where(p, keep);
        let rest = keep_where(p, keep);
        let r = keep_where(s, keep);
        assert forall|i: int| 0 <= i < r.len() implies exists|j: int|
            0 <= j < s.len() && #[trigger] r[i] == s[j] by {
            if i < rest.len() {
                let j = choose|j: int| 0 <= j < p.len() && rest[i] == p[j];
                assert(r[i] == s[j]);
            } else {
                assert(r[i] == s[s.len() - 1]);
            }
        }
        assert forall|i: int| 0 <= i < r.len() implies keep(#[trigger] r[i]) by {
            if i < rest.len() {
                assert(r[i] == rest[i]);
            }
        }
        if unique_keys(s) {
            assert(unique_keys(p));
            assert forall|i: int, j: int|
                0 <= i < r.len() && 0 <= j < r.len() && i != j implies r[i].chunk_index
                != r[j].chunk_index by {
                if i < rest.len() && j < rest.len() {
                } else if i < rest.len() {
                    let a = choose|a: int| 0 <= a < p.len() && rest[i] == p[a];
                    assert(r[j] == s[s.len() - 1]);
                    assert(rest[i] == s[a]);
                } else {
                    let b = choose|b: int| 0 <= b < p.len() && rest[j] == p[b];
                    assert(r[i] == s[s.len() - 1]);
                    assert(rest[j] == s[b]);
                }
            }
        }
        if forall|i: int| 0 <= i < s.len() ==> #[trigger] s[i].retry_count < u32::MAX {
            assert forall|i: int| 0 <= i < r.len() implies #[trigger] r[i].retry_count < u32::MAX by {
                let j = choose|j: int| 0 <= j < s.len() && r[i] == s[j];
            }
        }
    }
}

/// Sliding window state for one file.
pub struct SlidingWindow {
    config: WindowConfig,
    transfer_id: [u8; 16],
    file_index: u32,
    total_chunks: u32,
    next_to_send: u32,
    next_expected_ack: u32,
    in_flight: Vec<InFlightChunk>,
    acked_chunks: HashSet<u32>,
    acked_count: u32,
}

impl SlidingWindow {
    /// The window configuration.
    pub closed spec fn spec_config(&self) -> WindowConfig {
        self.config
    }

    /// Total number of chunks of the file.
    pub closed spec fn spec_total(&self) -> u32 {
        self.total_chunks
    }

    /// Next chunk index to send.
    pub closed spec fn spec_next_to_send(&self) -> u32 {
        self.next_to_send
    }

    /// Lowest index not yet acknowledged (see [`SlidingWindow::wf`]).
    pub closed spec fn spec_next_expected_ack(&self) -> u32 {
        self.next_expected_ack
    }

    /// Chunks in flight, in the order they were first recorded.
    pub closed spec fn spec_in_flight(&self) -> Seq<InFlightChunk> {
        self.in_flight@
    }

    /// Indices acknowledged so far.
    pub closed spec fn spec_acked(&self) -> Set<u32> {
        self.acked_chunks@
    }

    /// Number of acknowledgements counted.
    pub closed spec fn spec_acked_count(&self) -> u32 {
        self.acked_count
    }

    /// The window's invariant: in-flight indices are unique and below the
    /// retry counter's limit, the acknowledgement count is the size of the
    /// acknowledged set, every index below `next_expected_ack` is
    /// acknowledged and, while inside the file, `next_expected_ack` itself
    /// is not.
    pub closed spec fn wf(&self) -> bool {
        &&& unique_keys(self.in_flight@)
        &&& forall|i: int|
            0 <= i < self.in_flight@.len() ==> #[trigger] self.in_flight@[i].retry_count < u32::MAX
        &&& self.acked_chunks@.finite()
        &&& self.acked_count as nat == self.acked_chunks@.len()
        &&& forall|i: u32| #[trigger] self.acked_chunks@.contains(i) ==> i < self.total_chunks
        &&& forall|i: u32| i < self.next_expected_ack ==> #[trigger] self.acked_chunks@.contains(i)
        &&& self.next_expected_ack < self.total_chunks ==> !self.acked_chunks@.contains(
            self.next_expected_ack,
        )
    }

    /// Create a window for `total_chunks` chunks of one file.
    pub fn new(config: WindowConfig, transfer_id: [u8; 16], file_index: u32, total_chunks: u32) -> (r:
        Self)
        ensures
            r.wf(),
            r.spec_config() == config,
            r.spec_total() == total_chunks,
            r.spec_next_to_send() == 0,
            r.spec_next_expected_ack() == 0,
            r.spec_in_flight() == Seq::<InFlightChunk>::empty(),
            r.spec_acked() == Set::<u32>::empty(),
            r.spec_acked_count() == 0,
    {
        SlidingWindow {
            config,
            transfer_id,
            file_index,
            total_chunks,
            next_to_send: 0,
            next_expected_ack: 0,
            in_flight: Vec::new(),
            acked_chunks: HashSet::new(),
            acked_count: 0,
        }
    }

    /// Whether another chunk may be sent: the window is not full and chunks
    /// remain.
    pub fn can_send(&self) -> (r: bool)
        ensures
            r == (self.spec_in_flight().len() < self.spec_config().max_window_size
                && self.spec_next_to_send() < self.spec_total()),
    {
        self.in_flight.len() < self.config.max_window_size && self.next_to_send < self.total_chunks
    }

    /// The next chunk index to send, if the window allows one.
    pub fn next_chunk_to_send(&self) -> (r: Option<u32>)
        ensures
            r == (if self.spec_in_flight().len() < self.spec_config().max_window_size
                && self.spec_next_to_send() < self.spec_total() {
                Some(self.spec_next_to_send())
            } else {
                None
            }),
    {
        if self.can_send() {
            Some(self.next_to_send)
        } else {
            None
        }
    }

    /// Record `chunk` as sent. An entry with the same index is replaced;
    /// sending the next expected index advances `next_to_send`.
    pub fn mark_sent(&mut self, chunk: InFlightChunk)
        requires
            old(self).wf(),
            chunk.retry_count < u32::MAX,
            chunk.chunk_index == old(self).spec_next_to_send() ==> old(self).spec_next_to_send()
                < u32::MAX,
        ensures
            final(self).wf(),
            final(self).spec_in_flight() == insert_chunk(old(self).spec_in_flight(), chunk),
            final(self).spec_next_to_send() == (if chunk.chunk_index == old(
                self,
            ).spec_next_to_send() {
                (old(self).spec_next_to_send() + 1) as u32
            } else {
                old(self).spec_next_to_send()
            }),
            final(self).spec_config() == old(self).spec_config(),
            final(self).spec_total() == old(self).spec_total(),
            final(self).spec_next_expected_ack() == old(self).spec_next_expected_ack(),
            final(self).spec_acked() == old(self).spec_acked(),
            final(self).spec_acked_count() == old(self).spec_acked_count(),
    {
        let k = chunk.chunk_index;
        let ghost s = self.in_flight@;
        let mut j: usize = 0;
        while j < self.in_flight.len() && self.in_flight[j].chunk_index != k
            invariant
                self.in_flight@ == s,
                j <= s.len(),
                forall|i: int| 0 <= i < j ==> s[i].chunk_index != k,
            decreases s.len() - j,
        {
            j = j + 1;
        }
        if j < self.in_flight.len() {
            proof {
                assert(s[j as int].chunk_index == k);
                assert(has_key(s, k));
                let c = choose|i: int| 0 <= i < s.len() && s[i].chunk_index == k;
                assert(c == j as int);
            }
            self.in_flight.set(j, chunk);
            proof {
                assert forall|a: int, b: int|
                    0 <= a < self.in_flight@.len() && 0 <= b < self.in_flight@.len() && a
                        != b implies self.in_flight@[a].chunk_index
                    != self.in_flight@[b].chunk_index by {
                    if a != j && b != j {
                        assert(s[a].chunk_index != s[b].chunk_index);
                    } else if a == j {
                        assert(s[b].chunk_index != s[j as int].chunk_index);
                    } else {
                        assert(s[a].chunk_index != s[j as int].chunk_index);
                    }
                }
            }
        } else {
            proof {
                assert(!has_key(s, k));
            }
            self.in_flight.push(chunk);
        }
        if k == self.next_to_send {
            self.next_to_send = self.next_to_send + 1;
        }
    }

    /// Process an acknowledgement for chunk `chunk_index`.
    pub fn process_ack(&mut self, chunk_index: u32) -> (r: AckResult)
        requires
            old(self).wf(),
        ensures
            final(self).wf(),
            chunk_index >= old(self).spec_total() ==> {
                &&& r == AckResult::OutOfRange
                &&& *final(self) == *old(self)
            },
            chunk_index < old(self).spec_total() && old(self).spec_acked().contains(chunk_index) ==> {
                &&& r == AckResult::Duplicate
                &&& *final(self) == *old(self)
            },
            chunk_index < old(self).spec_total() && !old(self).spec_acked().contains(chunk_index) ==> {
                &&& r == AckResult::Success
                &&& final(self).spec_acked() == old(self).spec_acked().insert(chunk_index)
                &&& final(self).spec_acked_count() == old(self).spec_acked_count() + 1
                &&& final(self).spec_in_flight() == without_key(
                    old(self).spec_in_flight(),
                    chunk_index,
                )
            },
            final(self).spec_config() == old(self).spec_config(),
            final(self).spec_total() == old(self).spec_total(),
            final(self).spec_next_to_send() == old(self).spec_next_to_send(),
            final(self).spec_next_expected_ack() >= old(self).spec_next_expected_ack(),
    {
        if chunk_index >= self.total_chunks {
            return AckResult::OutOfRange;
        }
        if self.acked_chunks.contains(&chunk_index) {
            return AckResult::Duplicate;
        }
        proof {
            let below = chunks_below(self.total_chunks).remove(chunk_index);
            lemma_chunks_below_len(self.total_chunks);
            assert(self.acked_chunks@.subset_of(below));
            vstd::set_lib::lemma_len_subset(self.acked_chunks@, below);
        }
        self.remove_in_flight(chunk_index);
        self.acked_chunks.insert(chunk_index);
        self.acked_count = self.acked_count + 1;

        if chunk_index == self.next_expected_ack {
            let mut nea = self.next_expected_ack + 1;
            while nea < self.total_chunks && self.acked_chunks.contains(&nea)
                invariant
                    forall|i: u32| i < nea ==> #[trigger] self.acked_chunks@.contains(i),
                    nea > self.next_expected_ack,
                decreases u32::MAX - nea,
            {
                nea = nea + 1;
            }
            self.next_expected_ack = nea;
        }
        AckResult::Success
    }

    fn remove_in_flight(&mut self, k: u32)
        requires
            unique_keys(old(self).in_flight@),
            forall|i: int|
                0 <= i < old(self).in_flight@.len() ==> #[trigger] old(self).in_flight@[i].retry_count
                    < u32::MAX,
        ensures
            final(self).in_flight@ == without_key(old(self).in_flight@, k),
            unique_keys(final(self).in_flight@),
            forall|i: int|
                0 <= i < final(self).in_flight@.len() ==> #[trigger] final(self).in_flight@[i].retry_count
                    < u32::MAX,
            final(self).config == old(self).config,
            final(self).total_chunks == old(self).total_chunks,
            final(self).next_to_send == old(self).next_to_send,
            final(self).next_expected_ack == old(self).next_expected_ack,
            final(self).acked_chunks@ == old(self).acked_chunks@,
            final(self).acked_count == old(self).acked_count,
    {
        let ghost orig = self.in_flight@;
        let mut rest: Vec<InFlightChunk> = Vec::new();
        std::mem::swap(&mut rest, &mut self.in_flight);
        let total: usize = rest.len();
        assert(orig.len() == total);
        let mut n: usize = 0;
        while rest.len() > 0
            invariant
                n + rest@.len() == orig.len(),
                orig.len() <= usize::MAX,
                rest@ == orig.skip(n as int),
                self.in_flight@ == without_key(orig.take(n as int), k),
                self.config == old(self).config,
                self.total_chunks == old(self).total_chunks,
                self.next_to_send == old(self).next_to_send,
                self.next_expected_ack == old(self).next_expected_ack,
                self.acked_chunks@ == old(self).acked_chunks@,
                self.acked_count == old(self).acked_count,
            decreases rest@.len(),
        {
            let c = rest.remove(0);
            proof {
                assert(c == orig[n as int]);
                assert(orig.take(n + 1).drop_last() == orig.take(n as int));
                assert(orig.take(n + 1).last() == orig[n as int]);
                assert(rest@ == orig.skip(n + 1));
            }
            if c.chunk_index != k {
                self.in_flight.push(c);
            }
            n = n + 1;
        }
        proof {
            assert(orig.take(orig.len() as int) == orig);
            lemma_keep_where(orig, |c: InFlightChunk| c.chunk_index != k);
        }
    }

    /// Take every chunk whose acknowledgement timed out at clock `now_ms`
    /// out of the window, count one more retry for it, and return those
    /// still within the retry budget (the others are dropped).
    pub fn check_timeouts_at(&mut self, now_ms: u64) -> (r: Vec<InFlightChunk>)
        requires
            old(self).wf(),
        ensures
            final(self).wf(),
            final(self).spec_in_flight() == still_waiting(
                old(self).spec_in_flight(),
                now_ms,
                old(self).spec_config().ack_timeout_ms,
            ),
            r@ == due_for_retry(
                old(self).spec_in_flight(),
                now_ms,
                old(self).spec_config().ack_timeout_ms,
                old(self).spec_config().max_retries,
            ),
            final(self).spec_config() == old(self).spec_config(),
            final(self).spec_total() == old(self).spec_total(),
            final(self).spec_next_to_send() == old(self).spec_next_to_send(),
            final(self).spec_next_expected_ack() == old(self).spec_next_expected_ack(),
            final(self).spec_acked() == old(self).spec_acked(),
            final(self).spec_acked_count() == old(self).spec_acked_count(),
    {
        let ghost orig = self.in_flight@;
        let timeout = self.config.ack_timeout_ms;
        let max = self.config.max_retries;
        let mut rest: Vec<InFlightChunk> = Vec::new();
        std::mem::swap(&mut rest, &mut self.in_flight);
        let total: usize = rest.len();
        assert(orig.len() == total);
        let mut out: Vec<InFlightChunk> = Vec::new();
        let mut n: usize = 0;
        while rest.len() > 0
            invariant
                n + rest@.len() == orig.len(),
                orig.len() <= usize::MAX,
                rest@ == orig.skip(n as int),
                forall|i: int| 0 <= i < orig.len() ==> #[trigger] orig[i].retry_count < u32::MAX,
                timeout == self.config.ack_timeout_ms,
                max == self.config.max_retries,
                self.in_flight@ == still_waiting(orig.take(n as int), now_ms, timeout),
                out@ == due_for_retry(orig.take(n as int), now_ms, timeout, max),
                self.config == old(self).config,
                self.total_chunks == old(self).total_chunks,
                self.next_to_send == old(self).next_to_send,
                self.next_expected_ack == old(self).next_expected_ack,
                self.acked_chunks@ == old(self).acked_chunks@,
                self.acked_count == old(self).acked_count,
            decreases rest@.len(),
        {
            let mut c = rest.remove(0);
            proof {
                assert(c == orig[n as int]);
                assert(orig.take(n + 1).drop_last() == orig.take(n as int));
                assert(orig.take(n + 1).last() == orig[n as int]);
                assert(rest@ == orig.skip(n + 1));
            }
            let expired = now_ms > c.sent_at_ms && now_ms - c.sent_at_ms > timeout;
            if expired {
                c.retry_count = c.retry_count + 1;
                if c.retry_count <= max {
                    out.push(c);
                }
            } else {
                self.in_flight.push(c);
            }
            n = n + 1;
        }
        proof {
            assert(orig.take(orig.len() as int) == orig);
            lemma_keep_where(orig, |c: InFlightChunk| !timed_out(c, now_ms, timeout));
        }
        out
    }

    /// Take timed-out chunks out of the window at the current clock
    /// reading; see [`SlidingWindow::check_timeouts_at`].
    pub fn check_timeouts(&mut self) -> (r: Vec<InFlightChunk>)
        requires
            old(self).wf(),
        ensures
            final(self).wf(),
            exists|now: u64|
                {
                    &&& final(self).spec_in_flight() == still_waiting(
                        old(self).spec_in_flight(),
                        now,
                        old(self).spec_config().ack_timeout_ms,
                    )
                    &&& r@ == due_for_retry(
                        old(self).spec_in_flight(),
                        now,
                        old(self).spec_config().ack_timeout_ms,
                        old(self).spec_config().max_retries,
                    )
                },
            final(self).spec_config() == old(self).spec_config(),
            final(self).spec_total() == old(self).spec_total(),
            final(self).spec_next_to_send() == old(self).spec_next_to_send(),
            final(self).spec_next_expected_ack() == old(self).spec_next_expected_ack(),
            final(self).spec_acked() == old(self).spec_acked(),
            final(self).spec_acked_count() == old(self).spec_acked_count(),
    {
        let now = crate::clock::unix_time_ms();
        self.check_timeouts_at(now)
    }

    /// Whether every chunk of the file has been acknowledged.
    pub fn is_complete(&self) -> (r: bool)
        requires
            self.wf(),
        ensures
            r == (forall|i: u32| i < self.spec_total() ==> #[trigger] self.spec_acked().contains(i)),
            r == (self.spec_acked_count() == self.spec_total()),
    {
        proof {
            lemma_complete_iff_all_acked(*self);
        }
        self.acked_count == self.total_chunks
    }

    /// Number of chunks in flight.
    pub fn in_flight_count(&self) -> (r: usize)
        ensures
            r == self.spec_in_flight().len(),
    {
        self.in_flight.len()
    }

    /// Lowest index not yet acknowledged.
    pub fn next_expected_ack(&self) -> (r: u32)
        ensures
            r == self.spec_next_expected_ack(),
    {
        self.next_expected_ack
    }

    /// Number of distinct acknowledgements counted.
    pub fn acked_count(&self) -> (r: u32)
        ensures
            r == self.spec_acked_count(),
    {
        self.acked_count
    }

    /// Total number of chunks of the file.
    pub fn total_chunks(&self) -> (r: u32)
        ensures
            r == self.spec_total(),
    {
        self.total_chunks
    }

    /// Next chunk index to send.
    pub fn next_to_send(&self) -> (r: u32)
        ensures
            r == self.spec_next_to_send(),
    {
        self.next_to_send
    }

    /// Indices of in-flight chunks whose retry count exceeds the budget.
    pub fn get_failed_chunks(&self) -> (r: Vec<u32>)
        ensures
            r@ == failed_indices(self.spec_in_flight(), self.spec_config().max_retries),
    {
        let mut out: Vec<u32> = Vec::new();
        let mut i: usize = 0;
        let max = self.config.max_retries;
        while i < self.in_flight.len()
            invariant
                i <= self.in_flight@.len(),
                max == self.config.max_retries,
                out@ == failed_indices(self.in_flight@.take(i as int), max),
            decreases self.in_flight@.len() - i,
        {
            proof {
                assert(self.in_flight@.take(i + 1).drop_last() == self.in_flight@.take(i as int));
            }
            if self.in_flight[i].retry_count > max {
                out.push(self.in_flight[i].chunk_index);
            }
            i = i + 1;
        }
        proof {
            assert(self.in_flight@.take(self.in_flight@.len() as int) == self.in_flight@);
        }
        out
    }
}

/// Sending only when `can_send` allows keeps the window within its size:
/// recording a chunk grows the table by at most one entry.
pub proof fn lemma_send_keeps_window_bounded(s: Seq<InFlightChunk>, c: InFlightChunk, max: usize)
    requires
        s.len() < max,
    ensures
        insert_chunk(s, c).len() <= max,
        insert_chunk(s, c).len() <= s.len() + 1,
{
}

/// In a well-formed window every chunk below `next_expected_ack` has been
/// acknowledged, and `next_expected_ack` itself has not (while it is a
/// chunk of the file): it is the lowest unacknowledged chunk.
pub proof fn lemma_next_expected_is_lowest_unacked(w: SlidingWindow)
    requires
        w.wf(),
    ensures
        forall|i: u32| i < w.spec_next_expected_ack() ==> #[trigger] w.spec_acked().contains(i),
        w.spec_next_expected_ack() < w.spec_total() ==> !w.spec_acked().contains(
            w.spec_next_expected_ack(),
        ),
        w.spec_acked_count() as nat == w.spec_acked().len(),
{
}

/// The chunk indices of a file of `n` chunks.
pub open spec fn chunks_below(n: u32) -> Set<u32> {
    Set::new(|i: u32| i < n)
}

proof fn lemma_chunks_below_len(n: u32)
    ensures
        chunks_below(n).finite(),
        chunks_below(n).len() == n,
    decreases n,
{
    if n == 0 {
        assert(chunks_below(n) =~= Set::<u32>::empty());
    } else {
        let m = (n - 1) as u32;
        lemma_chunks_below_len(m);
        assert(chunks_below(m).insert(m) =~= chunks_below(n));
    }
}

/// A well-formed window has as many acknowledgements as chunks exactly
/// when every chunk of the file has been acknowledged.
pub proof fn lemma_complete_iff_all_acked(w: SlidingWindow)
    requires
        w.wf(),
    ensures
        (w.spec_acked_count() == w.spec_total()) <==> (forall|i: u32|
            i < w.spec_total() ==> #[trigger] w.spec_acked().contains(i)),
{
    let acked = w.spec_acked();
    let all = chunks_below(w.spec_total());
    lemma_chunks_below_len(w.spec_total());
    assert(acked.subset_of(all));
    if w.spec_acked_count() == w.spec_total() {
        vstd::set_lib::lemma_subset_equality(acked, all);
        assert forall|i: u32| i < w.spec_total() implies #[trigger] acked.contains(i) by {
            assert(all.contains(i));
        }
    }
    if forall|i: u32| i < w.spec_total() ==> #[trigger] acked.contains(i) {
        assert(acked =~= all);
    }
}

} // verus!
