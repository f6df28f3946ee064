//! Transfer history: one record per transfer, and the queries over the
//! list of records (by direction, by status, by identifier, most recent
//! first).

use vstd::prelude::*;

use crate::clock::unix_time_ms;
use crate::protocol::{ids_equal, TransferId};

verus! {

/// Direction of a transfer.
#[derive(Debug, Clone, Copy, PartialEq, Eq, Structural)]
pub enum TransferDirection {
    /// Sending files
    Send,
    /// Receiving files
    Receive,
}

/// Status of a finished transfer.
#[derive(Debug, Clone, Copy, PartialEq, Eq, Structural)]
pub enum TransferStatus {
    /// Transfer completed successfully
    Completed,
    /// Transfer was interrupted
    Interrupted,
    /// Transfer failed with error
    Failed,
}

/// A single transfer record. Times are Unix seconds.
#[derive(Debug, Clone)]
pub struct TransferRecord {
    /// Unique transfer ID
    pub transfer_id: TransferId,
    /// When the transfer started
    pub start_time: u64,
    /// When the transfer ended
    pub end_time: u64,
    /// Direction (send or receive)
    pub direction: TransferDirection,
    /// Peer address
    pub peer_address: String,
    /// Paths of the files transferred
    pub files: Vec<String>,
    /// Total bytes transferred
    pub bytes_transferred: u64,
    /// Duration in seconds
    pub duration_secs: u64,
    /// Final status
    pub status: TransferStatus,
}

/// `a - b`, or 0 when `b` exceeds `a`.
pub open spec fn saturating_diff(a: u64, b: u64) -> u64 {
    if a >= b {
        (a - b) as u64
    } else {
        0
    }
}

/// The current time in Unix seconds: the whole seconds of the clock's
/// millisecond reading, so at most `u64::MAX / 1000` (the reading itself
/// is not promised).
fn now_secs() -> (r: u64)
    ensures
        r <= u64::MAX / 1000,
{
    unix_time_ms() / 1000
}

impl TransferRecord {
    /// A record of a transfer starting at `now`, marked interrupted until it
    /// is finished.
    pub fn new_at(
        transfer_id: TransferId,
        direction: TransferDirection,
        peer_address: String,
        now: u64,
    ) -> (r: Self)
        ensures
            r.transfer_id == transfer_id,
            r.start_time == now,
            r.end_time == now,
            r.direction == direction,
            r.peer_address == peer_address,
            r.files@.len() == 0,
            r.bytes_transferred == 0,
            r.duration_secs == 0,
            r.status == TransferStatus::Interrupted,
    {
        TransferRecord {
            transfer_id,
            start_time: now,
            end_time: now,
            direction,
            peer_address,
            files: Vec::new(),
            bytes_transferred: 0,
            duration_secs: 0,
            status: TransferStatus::Interrupted,
        }
    }

    /// A record of a transfer starting now (read from the system clock).
    pub fn new(transfer_id: TransferId, direction: TransferDirection, peer_address: String) -> (r: Self)
        ensures
            r.transfer_id == transfer_id,
            r.end_time == r.start_time,
            r.direction == direction,
            r.peer_address == peer_address,
            r.files@.len() == 0,
            r.bytes_transferred == 0,
            r.duration_secs == 0,
            r.status == TransferStatus::Interrupted,
    {
        TransferRecord::new_at(transfer_id, direction, peer_address, now_secs())
    }

    /// Close the record at `now` with `status`, the files and the byte
    /// count.
    fn finish_at(&mut self, now: u64, files: Vec<String>, bytes_transferred: u64, status: TransferStatus)
        ensures
            final(self).end_time == now,
            final(self).duration_secs == saturating_diff(now, old(self).start_time),
            final(self).files@ == files@,
            final(self).bytes_transferred == bytes_transferred,
            final(self).status == status,
            final(self).transfer_id == old(self).transfer_id,
            final(self).start_time == old(self).start_time,
            final(self).direction == old(self).direction,
            final(self).peer_address == old(self).peer_address,
    {
        self.end_time = now;
        self.duration_secs = now.saturating_sub(self.start_time);
        self.files = files;
        self.bytes_transferred = bytes_transferred;
        self.status = status;
    }

    /// Mark the transfer completed at `now`.
    pub fn complete_at(&mut self, now: u64, files: Vec<String>, bytes_transferred: u64)
        ensures
            final(self).end_time == now,
            final(self).duration_secs == saturating_diff(now, old(self).start_time),
            final(self).files@ == files@,
            final(self).bytes_transferred == bytes_transferred,
            final(self).status == TransferStatus::Completed,
            final(self).transfer_id == old(self).transfer_id,
            final(self).start_time == old(self).start_time,
            final(self).direction == old(self).direction,
            final(self).peer_address == old(self).peer_address,
    {
        self.finish_at(now, files, bytes_transferred, TransferStatus::Completed);
    }

    /// Mark the transfer completed now.
    pub fn complete(&mut self, files: Vec<String>, bytes_transferred: u64)
        ensures
            final(self).duration_secs == saturating_diff(final(self).end_time, old(self).start_time),
            final(self).files@ == files@,
            final(self).bytes_transferred == bytes_transferred,
            final(self).status == TransferStatus::Completed,
            final(self).transfer_id == old(self).transfer_id,
            final(self).start_time == old(self).start_time,
            final(self).direction == old(self).direction,
            final(self).peer_address == old(self).peer_address,
    {
        let now = now_secs();
        self.complete_at(now, files, bytes_transferred);
    }

    /// Mark the transfer interrupted at `now`.
    pub fn interrupt_at(&mut self, now: u64, files: Vec<String>, bytes_transferred: u64)
        ensures
            final(self).end_time == now,
            final(self).duration_secs == saturating_diff(now, old(self).start_time),
            final(self).files@ == files@,
            final(self).bytes_transferred == bytes_transferred,
            final(self).status == TransferStatus::Interrupted,
            final(self).transfer_id == old(self).transfer_id,
            final(self).start_time == old(self).start_time,
            final(self).direction == old(self).direction,
            final(self).peer_address == old(self).peer_address,
    {
        self.finish_at(now, files, bytes_transferred, TransferStatus::Interrupted);
    }

    /// Mark the transfer interrupted now.
    pub fn interrupt(&mut self, files: Vec<String>, bytes_transferred: u64)
        ensures
            final(self).duration_secs == saturating_diff(final(self).end_time, old(self).start_time),
            final(self).files@ == files@,
            final(self).bytes_transferred == bytes_transferred,
            final(self).status == TransferStatus::Interrupted,
            final(self).transfer_id == old(self).transfer_id,
            final(self).start_time == old(self).start_time,
            final(self).direction == old(self).direction,
            final(self).peer_address == old(self).peer_address,
    {
        let now = now_secs();
        self.interrupt_at(now, files, bytes_transferred);
    }

    /// Mark the transfer failed at `now`; the error text is kept as one more
    /// entry of the file list, prefixed with `Error: `.
    pub fn fail_at(&mut self, now: u64, error: String)
        ensures
            final(self).end_time == now,
            final(self).duration_secs == saturating_diff(now, old(self).start_time),
            final(self).status == TransferStatus::Failed,
            final(self).files@.len() == old(self).files@.len() + 1,
            forall|i: int| 0 <= i < old(self).files@.len() ==> final(self).files@[i] == old(self).files@[i],
            final(self).files@.last()@ == "Error: "@ + error@,
            final(self).bytes_transferred == old(self).bytes_transferred,
            final(self).transfer_id == old(self).transfer_id,
            final(self).start_time == old(self).start_time,
            final(self).direction == old(self).direction,
            final(self).peer_address == old(self).peer_address,
    {
        self.end_time = now;
        self.duration_secs = now.saturating_sub(self.start_time);
        self.status = TransferStatus::Failed;
        let mut entry = "Error: ".to_string();
        entry.append(error.as_str());
        self.files.push(entry);
    }

    /// Mark the transfer failed now.
    pub fn fail(&mut self, error: String)
        ensures
            final(self).duration_secs == saturating_diff(final(self).end_time, old(self).start_time),
            final(self).status == TransferStatus::Failed,
            final(self).files@.len() == old(self).files@.len() + 1,
            forall|i: int| 0 <= i < old(self).files@.len() ==> final(self).files@[i] == old(self).files@[i],
            final(self).files@.last()@ == "Error: "@ + error@,
            final(self).bytes_transferred == old(self).bytes_transferred,
            final(self).transfer_id == old(self).transfer_id,
            final(self).start_time == old(self).start_time,
            final(self).direction == old(self).direction,
            final(self).peer_address == old(self).peer_address,
    {
        let now = now_secs();
        self.fail_at(now, error);
    }
}

} // verus!

verus! {

/// The records of `s` in direction `d`, in order.
pub open spec fn records_with_direction(s: Seq<TransferRecord>, d: TransferDirection) -> Seq<
    TransferRecord,
>
    decreases s.len(),
{
    if s.len() == 0 {
        Seq::empty()
    } else {
        let prev = records_with_direction(s.drop_last(), d);
        if s.last().direction == d {
            prev.push(s.last())
        } else {
            prev
        }
    }
}

/// The records of `s` with status `st`, in order.
pub open spec fn records_with_status(s: Seq<TransferRecord>, st: TransferStatus) -> Seq<
    TransferRecord,
>
    decreases s.len(),
{
    if s.len() == 0 {
        Seq::empty()
    } else {
        let prev = records_with_status(s.drop_last(), st);
        if s.last().status == st {
            prev.push(s.last())
        } else {
            prev
        }
    }
}

/// The first record of `s` with identifier `id`.
pub open spec fn first_with_id(s: Seq<TransferRecord>, id: TransferId) -> Option<TransferRecord>
    decreases s.len(),
{
    if s.len() == 0 {
        None
    } else if s[0].transfer_id@ == id@ {
        Some(s[0])
    } else {
        first_with_id(s.drop_first(), id)
    }
}

/// `order` lists every index of `s` once, most recent start first, and
/// records that started at the same time in the order they were added.
pub open spec fn is_recent_order(s: Seq<TransferRecord>, order: Seq<usize>) -> bool {
    &&& order.len() == s.len()
    &&& forall|k: int| 0 <= k < order.len() ==> #[trigger] order[k] < s.len()
    &&& forall|i: int, j: int|
        #![trigger order[i], order[j]]
        0 <= i < j < order.len() ==> {
            let a = s[order[i] as int];
            let b = s[order[j] as int];
            a.start_time > b.start_time || (a.start_time == b.start_time && order[i] < order[j])
        }
}

/// The references of `v`, dereferenced.
pub open spec fn derefs(v: Seq<&TransferRecord>) -> Seq<TransferRecord> {
    v.map_values(|x: &TransferRecord| *x)
}

/// Transfer history: the records in the order they were added.
#[derive(Debug, Clone)]
pub struct TransferHistory {
    records: Vec<TransferRecord>,
}

impl View for TransferHistory {
    type V = Seq<TransferRecord>;

    closed spec fn view(&self) -> Seq<TransferRecord> {
        self.records@
    }
}

impl TransferHistory {
    /// An empty history.
    pub fn new() -> (r: Self)
        ensures
            r@ == Seq::<TransferRecord>::empty(),
    {
        TransferHistory { records: Vec::new() }
    }

    /// Append `record`.
    pub fn add_record(&mut self, record: TransferRecord)
        ensures
            final(self)@ == old(self)@.push(record),
    {
        self.records.push(record);
    }

    /// All records, oldest first.
    pub fn records(&self) -> (r: &[TransferRecord])
        ensures
            r@ == self@,
    {
        self.records.as_slice()
    }

    /// The records in direction `direction`, in order.
    pub fn filter_by_direction(&self, direction: TransferDirection) -> (r: Vec<&TransferRecord>)
        ensures
            derefs(r@) == records_with_direction(self@, direction),
    {
        let mut out: Vec<&TransferRecord> = Vec::new();
        let mut i: usize = 0;
        while i < self.records.len()
            invariant
                i <= self.records@.len(),
                derefs(out@) == records_with_direction(self.records@.take(i as int), direction),
            decreases self.records@.len() - i,
        {
            let rec = &self.records[i];
            proof {
                assert(self.records@.take(i + 1).drop_last() == self.records@.take(i as int));
            }
            if rec.direction == direction {
                let ghost prev = out@;
                out.push(rec);
                proof {
                    assert(derefs(out@) =~= derefs(prev).push(*rec));
                }
            }
            i = i + 1;
        }
        proof {
            assert(self.records@.take(self.records@.len() as int) == self.records@);
        }
        out
    }

    /// The records with status `status`, in order.
    pub fn filter_by_status(&self, status: TransferStatus) -> (r: Vec<&TransferRecord>)
        ensures
            derefs(r@) == records_with_status(self@, status),
    {
        let mut out: Vec<&TransferRecord> = Vec::new();
        let mut i: usize = 0;
        while i < self.records.len()
            invariant
                i <= self.records@.len(),
                derefs(out@) == records_with_status(self.records@.take(i as int), status),
            decreases self.records@.len() - i,
        {
            let rec = &self.records[i];
            proof {
                assert(self.records@.take(i + 1).drop_last() == self.records@.take(i as int));
            }
            if rec.status == status {
                let ghost prev = out@;
                out.push(rec);
                proof {
                    assert(derefs(out@) =~= derefs(prev).push(*rec));
                }
            }
            i = i + 1;
        }
        proof {
            assert(self.records@.take(self.records@.len() as int) == self.records@);
        }
        out
    }

    /// The first record with identifier `transfer_id`.
    pub fn get_by_id(&self, transfer_id: TransferId) -> (r: Option<&TransferRecord>)
        ensures
            match first_with_id(self@, transfer_id) {
                Some(rec) => r matches Some(x) && *x == rec,
                None => r is None,
            },
    {
        let mut i: usize = 0;
        assert(self.records@.skip(0) == self.records@);
        while i < self.records.len()
            invariant
                i <= self.records@.len(),
                first_with_id(self.records@, transfer_id) == first_with_id(
                    self.records@.skip(i as int),
                    transfer_id,
                ),
            decreases self.records@.len() - i,
        {
            let rec = &self.records[i];
            proof {
                assert(self.records@.skip(i as int)[0] == *rec);
                assert(self.records@.skip(i as int).drop_first() == self.records@.skip(i + 1));
            }
            if ids_equal(&rec.transfer_id, &transfer_id) {
                return Some(rec);
            }
            i = i + 1;
        }
        None
    }

    /// The `limit` most recent records, latest start first (records that
    /// started at the same time in the order they were added).
    pub fn recent(&self, limit: usize) -> (r: Vec<&TransferRecord>)
        ensures
            exists|order: Seq<usize>|
                #![trigger is_recent_order(self@, order)]
                {
                    &&& is_recent_order(self@, order)
                    &&& r@.len() == if limit < order.len() {
                        limit as int
                    } else {
                        order.len() as int
                    }
                    &&& forall|k: int|
                        0 <= k < r@.len() ==> *r@[k] == self@[#[trigger] order[k] as int]
                },
    {
        let order = recent_order(&self.records);
        let mut out: Vec<&TransferRecord> = Vec::new();
        let mut k: usize = 0;
        while k < order.len() && k < limit
            invariant
                is_recent_order(self.records@, order@),
                k <= order@.len(),
                k <= limit,
                out@.len() == k,
                forall|m: int| 0 <= m < k ==> *out@[m] == self.records@[#[trigger] order@[m] as int],
            decreases order@.len() - k,
        {
            let idx = order[k];
            out.push(&self.records[idx]);
            k = k + 1;
        }
        proof {
            let w = order@;
            assert(is_recent_order(self@, w));
            assert(out@.len() == if limit < w.len() {
                limit as int
            } else {
                w.len() as int
            });
            assert(forall|m: int| 0 <= m < out@.len() ==> *out@[m] == self@[#[trigger] w[m] as int]);
        }
        out
    }
}

/// Indices of `records` ordered most recent start first, ties in the order
/// the records were added (a stable insertion sort).
fn recent_order(records: &Vec<TransferRecord>) -> (r: Vec<usize>)
    ensures
        is_recent_order(records@, r@),
{
    let mut order: Vec<usize> = Vec::new();
    let mut i: usize = 0;
    while i < records.len()
        invariant
            i <= records@.len(),
            is_recent_order(records@.take(i as int), order@),
        decreases records@.len() - i,
    {
        let t = records[i].start_time;
        let mut p: usize = 0;
        while p < order.len() && records[order[p]].start_time >= t
            invariant
                p <= order@.len(),
                order@.len() == i,
                i < records@.len(),
                is_recent_order(records@.take(i as int), order@),
                t == records@[i as int].start_time,
                forall|q: int| 0 <= q < p ==> records@[#[trigger] order@[q] as int].start_time >= t,
            decreases order@.len() - p,
        {
            p = p + 1;
        }
        let ghost prev = order@;
        proof {
            lemma_insert_recent(records@, prev, i as int, p as int);
        }
        order.insert(p, i);
        i = i + 1;
    }
    proof {
        assert(records@.take(records@.len() as int) == records@);
    }
    order
}

/// Inserting index `i` at the first position whose record started strictly
/// before record `i` extends a recent-first order of the first `i`
/// records to one of the first `i + 1`.
proof fn lemma_insert_recent(s: Seq<TransferRecord>, order: Seq<usize>, i: int, p: int)
    requires
        0 <= i < s.len(),
        i <= usize::MAX,
        is_recent_order(s.take(i), order),
        0 <= p <= order.len(),
        forall|q: int| 0 <= q < p ==> s[#[trigger] order[q] as int].start_time >= s[i].start_time,
        p < order.len() ==> s[order[p] as int].start_time < s[i].start_time,
    ensures
        is_recent_order(s.take(i + 1), order.insert(p, i as usize)),
{
    let n = order.insert(p, i as usize);
    let t = s[i].start_time;
    assert forall|k: int| 0 <= k < order.len() implies #[trigger] order[k] < i && s.take(i)[order[k] as int] == s[order[k] as int] by {
    }
    assert forall|k: int| 0 <= k < n.len() implies #[trigger] n[k] < s.take(i + 1).len() by {
        if k < p {
            assert(n[k] == order[k]);
        } else if k > p {
            assert(n[k] == order[k - 1]);
        }
    }
    assert forall|a: int, b: int|
        #![trigger n[a], n[b]]
        0 <= a < b < n.len() implies {
            let x = s.take(i + 1)[n[a] as int];
            let y = s.take(i + 1)[n[b] as int];
            x.start_time > y.start_time || (x.start_time == y.start_time && n[a] < n[b])
        } by {
        assert(s.take(i + 1)[i] == s[i]);
        if a < p && b < p {
            assert(n[a] == order[a] && n[b] == order[b]);
            assert(order[a] < i && order[b] < i);
        } else if a < p && b == p {
            assert(n[a] == order[a] && n[b] == i);
            assert(order[a] < i);
        } else if a < p && b > p {
            assert(n[a] == order[a] && n[b] == order[b - 1]);
            assert(order[a] < i && order[b - 1] < i);
        } else if a == p {
            assert(n[a] == i && n[b] == order[b - 1]);
            assert(order[b - 1] < i);
            if b - 1 > p {
                assert(order[p] < i);
                let u = s.take(i)[order[p] as int];
                let v = s.take(i)[order[b - 1] as int];
                assert(u.start_time > v.start_time || (u.start_time == v.start_time && order[p]
                    < order[b - 1]));
            }
        } else {
            assert(n[a] == order[a - 1] && n[b] == order[b - 1]);
            assert(order[a - 1] < i && order[b - 1] < i);
        }
    }
}

/// Every record is either a send or a receive: the two direction filters
/// split the history between them.
pub proof fn lemma_directions_partition(s: Seq<TransferRecord>)
    ensures
        records_with_direction(s, TransferDirection::Send).len() + records_with_direction(
            s,
            TransferDirection::Receive,
        ).len() == s.len(),
    decreases s.len(),
{
    if s.len() > 0 {
        lemma_directions_partition(s.drop_last());
    }
}

/// Adding a record appends it to the filter of its direction and leaves
/// the other filter as it was.
pub proof fn lemma_add_record_filters(s: Seq<TransferRecord>, r: TransferRecord, d: TransferDirection)
    ensures
        records_with_direction(s.push(r), d) == if r.direction == d {
            records_with_direction(s, d).push(r)
        } else {
            records_with_direction(s, d)
        },
{
    assert(s.push(r).drop_last() =~= s);
}

/// Whether record `a` comes before record `b` in a recent-first order.
pub open spec fn recent_before(s: Seq<TransferRecord>, a: usize, b: usize) -> bool {
    s[a as int].start_time > s[b as int].start_time || (s[a as int].start_time
        == s[b as int].start_time && a < b)
}

/// The indices below `n`.
spec fn indices_below(n: nat) -> Set<usize> {
    Set::new(|i: usize| i < n)
}

proof fn lemma_indices_below_len(n: nat)
    requires
        n <= usize::MAX + 1,
    ensures
        indices_below(n).finite(),
        indices_below(n).len() == n,
    decreases n,
{
    if n == 0 {
        assert(indices_below(n) =~= Set::<usize>::empty());
    } else {
        let m = (n - 1) as nat;
        lemma_indices_below_len(m);
        assert(indices_below(m).insert(m as usize) =~= indices_below(n));
    }
}

/// A recent-first order lists every record exactly once.
proof fn lemma_recent_order_permutes(s: Seq<TransferRecord>, order: Seq<usize>)
    requires
        is_recent_order(s, order),
        s.len() <= usize::MAX,
    ensures
        order.no_duplicates(),
        forall|i: usize| i < s.len() ==> #[trigger] order.contains(i),
{
    assert forall|i: int, j: int| 0 <= i < order.len() && 0 <= j < order.len() && i != j implies order[i]
        != order[j] by {
        if i < j {
            assert(recent_before(s, order[i], order[j]));
        } else {
            assert(recent_before(s, order[j], order[i]));
        }
    }
    order.unique_seq_to_set();
    let all = indices_below(s.len());
    lemma_indices_below_len(s.len());
    assert(order.to_set().subset_of(all));
    vstd::set_lib::lemma_subset_equality(order.to_set(), all);
    assert forall|i: usize| i < s.len() implies #[trigger] order.contains(i) by {
        assert(all.contains(i));
        assert(order.to_set().contains(i));
    }
}

/// Two recent-first orders of the same records agree up to position `k`.
proof fn lemma_recent_orders_agree_upto(s: Seq<TransferRecord>, o1: Seq<usize>, o2: Seq<usize>, k: int)
    requires
        is_recent_order(s, o1),
        is_recent_order(s, o2),
        s.len() <= usize::MAX,
        0 <= k < o1.len(),
    ensures
        forall|m: int| 0 <= m <= k ==> #[trigger] o1[m] == o2[m],
    decreases k,
{
    if k > 0 {
        lemma_recent_orders_agree_upto(s, o1, o2, k - 1);
    }
    lemma_recent_order_permutes(s, o1);
    lemma_recent_order_permutes(s, o2);
    let x = o1[k];
    let y = o2[k];
    if x != y {
        assert(o1.contains(y));
        let p = choose|p: int| 0 <= p < o1.len() && o1[p] == y;
        assert(o2.contains(x));
        let q = choose|q: int| 0 <= q < o2.len() && o2[q] == x;
        if p < k {
            assert(o1[p] == o2[p]);
            assert(o2.no_duplicates());
        }
        if q < k {
            assert(o1[q] == o2[q]);
            assert(o1.no_duplicates());
        }
        assert(p > k && q > k);
        assert(recent_before(s, o1[k], o1[p]));
        assert(recent_before(s, o2[k], o2[q]));
    }
}

/// The recent-first order of a history is unique: two orders that both
/// list the records latest start first, ties in the order they were
/// added, are the same.
pub proof fn lemma_recent_order_unique(s: Seq<TransferRecord>, o1: Seq<usize>, o2: Seq<usize>)
    requires
        is_recent_order(s, o1),
        is_recent_order(s, o2),
        s.len() <= usize::MAX,
    ensures
        o1 == o2,
{
    if o1.len() > 0 {
        lemma_recent_orders_agree_upto(s, o1, o2, o1.len() - 1);
    }
    assert(o1 =~= o2);
}

} // verus!
