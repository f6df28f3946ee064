//! Folder transfers: the resume state persisted between sessions (which
//! files are done, which chunks of the current file arrived, how many
//! bytes that accounts for), and the decisions the sender and receiver
//! take on each control message of a folder transfer.

use std::collections::HashMap;
use vstd::prelude::*;
use vstd::std_specs::hash::group_hash_axioms;

use crate::error::Error;
use crate::protocol::{FileMetadata, Message, ResumePoint, TransferId, TransferInfo};
use crate::verification::digest_eq;

verus! {

broadcast use group_hash_axioms;

/// Chunk size recorded in a fresh state (64 KiB).
pub const STATE_CHUNK_SIZE: u32 = 65536;

/// Sum of the sizes of `files`.
pub open spec fn sum_sizes(files: Seq<FileMetadata>) -> int
    decreases files.len(),
{
    if files.len() == 0 {
        0
    } else {
        sum_sizes(files.drop_last()) + files.last().size
    }
}

/// Sum of the sizes of the files of `files` whose index `completed` lists.
pub open spec fn done_bytes(files: Seq<FileMetadata>, completed: Seq<usize>) -> int
    decreases files.len(),
{
    if files.len() == 0 {
        0
    } else {
        done_bytes(files.drop_last(), completed) + if completed.contains(
            (files.len() - 1) as usize,
        ) {
            files.last().size as int
        } else {
            0
        }
    }
}

/// How many of the indices `0..n` `completed` lists.
pub open spec fn count_listed(completed: Seq<usize>, n: nat) -> nat
    decreases n,
{
    if n == 0 {
        0
    } else {
        count_listed(completed, (n - 1) as nat) + if completed.contains((n - 1) as usize) {
            1nat
        } else {
            0nat
        }
    }
}

/// The first index of `0..n` that `completed` does not list.
pub open spec fn first_unlisted(completed: Seq<usize>, n: nat) -> Option<usize>
    decreases n,
{
    if n == 0 {
        None
    } else {
        match first_unlisted(completed, (n - 1) as nat) {
            Some(i) => Some(i),
            None => if completed.contains((n - 1) as usize) {
                None
            } else {
                Some((n - 1) as usize)
            },
        }
    }
}

/// On-disk state for chunk-level resume of a folder transfer.
#[derive(Debug, Clone)]
pub struct FolderTransferState {
    /// Transfer identifier (16 UUID bytes)
    pub transfer_id: TransferId,
    /// Name of the file or folder being sent
    pub folder_name: String,
    /// Every file of the transfer
    pub files: Vec<FileMetadata>,
    /// Indices of the files already transferred, in completion order
    pub completed_files: Vec<usize>,
    /// The file being transferred, if any
    pub current_file: Option<usize>,
    /// Total size of all files
    pub total_bytes: u64,
    /// Total size of the completed files
    pub transferred_bytes: u64,
    /// Chunks already sent, per file index
    pub file_chunks: HashMap<usize, Vec<u64>>,
    /// Chunk size in bytes
    pub chunk_size: u32,
}

impl FolderTransferState {
    /// The chunks recorded for file `file_index`, in recording order.
    pub open spec fn chunks_of(self, file_index: usize) -> Seq<u64> {
        if self.file_chunks@.contains_key(file_index) {
            self.file_chunks@[file_index]@
        } else {
            Seq::empty()
        }
    }

    /// The state's invariant: the byte totals agree with the file list, and
    /// the completed list names each file of the transfer at most once.
    pub open spec fn wf(self) -> bool {
        &&& self.files@.len() <= usize::MAX
        &&& self.total_bytes == sum_sizes(self.files@)
        &&& self.completed_files@.no_duplicates()
        &&& forall|k: int|
            0 <= k < self.completed_files@.len() ==> #[trigger] self.completed_files@[k]
                < self.files@.len()
        &&& self.transferred_bytes == done_bytes(self.files@, self.completed_files@)
    }

    /// A fresh state for sending `files`: nothing completed, no chunks.
    pub fn new(transfer_id: TransferId, folder_name: String, files: Vec<FileMetadata>) -> (r: Self)
        requires
            sum_sizes(files@) <= u64::MAX,
        ensures
            r.transfer_id == transfer_id,
            r.folder_name == folder_name,
            r.files@ == files@,
            r.completed_files@ == Seq::<usize>::empty(),
            r.current_file is None,
            r.total_bytes == sum_sizes(files@),
            r.transferred_bytes == 0,
            r.file_chunks@ == Map::<usize, Vec<u64>>::empty(),
            r.chunk_size == STATE_CHUNK_SIZE,
            r.wf(),
    {
        let total_bytes = total_size(&files);
        let file_count: usize = files.len();
        proof {
            assert(files@.len() == file_count);
            lemma_done_none(files@, Seq::<usize>::empty());
        }
        FolderTransferState {
            transfer_id,
            folder_name,
            files,
            completed_files: Vec::new(),
            current_file: None,
            total_bytes,
            transferred_bytes: 0,
            file_chunks: HashMap::new(),
            chunk_size: STATE_CHUNK_SIZE,
        }
    }

    /// Record that chunk `chunk_index` of file `file_index` was sent.
    pub fn mark_chunk_complete(&mut self, file_index: usize, chunk_index: u64)
        ensures
            final(self).chunks_of(file_index) == old(self).chunks_of(file_index).push(chunk_index),
            forall|j: usize| j != file_index ==> final(self).chunks_of(j) == old(self).chunks_of(j),
            final(self).file_chunks@.dom() == old(self).file_chunks@.dom().insert(file_index),
            final(self).transfer_id == old(self).transfer_id,
            final(self).folder_name == old(self).folder_name,
            final(self).files@ == old(self).files@,
            final(self).completed_files@ == old(self).completed_files@,
            final(self).current_file == old(self).current_file,
            final(self).total_bytes == old(self).total_bytes,
            final(self).transferred_bytes == old(self).transferred_bytes,
            final(self).chunk_size == old(self).chunk_size,
    {
        let list = match self.file_chunks.remove(&file_index) {
            Some(mut v) => {
                v.push(chunk_index);
                v
            },
            None => {
                let mut v: Vec<u64> = Vec::new();
                v.push(chunk_index);
                v
            },
        };
        self.file_chunks.insert(file_index, list);
        proof {
            assert(final(self).file_chunks@.dom() =~= old(self).file_chunks@.dom().insert(
                file_index,
            ));
        }
    }

    /// The chunks recorded for file `file_index` (empty when none).
    pub fn get_completed_chunks(&self, file_index: usize) -> (r: &[u64])
        ensures
            r@ == self.chunks_of(file_index),
    {
        match self.file_chunks.get(&file_index) {
            Some(v) => v.as_slice(),
            None => &[],
        }
    }

    /// Record that file `file_index` is done; its size counts as
    /// transferred when it is a file of this transfer. A file already
    /// recorded is left as it is.
    pub fn mark_file_complete(&mut self, file_index: usize)
        requires
            !old(self).completed_files@.contains(file_index) && file_index < old(self).files@.len()
                ==> old(self).transferred_bytes + old(self).files@[file_index as int].size
                <= u64::MAX,
        ensures
            old(self).completed_files@.contains(file_index) ==> *final(self) == *old(self),
            !old(self).completed_files@.contains(file_index) ==> {
                &&& final(self).completed_files@ == old(self).completed_files@.push(file_index)
                &&& final(self).transferred_bytes == old(self).transferred_bytes + if file_index
                    < old(self).files@.len() {
                    old(self).files@[file_index as int].size as int
                } else {
                    0
                }
                &&& final(self).transfer_id == old(self).transfer_id
                &&& final(self).folder_name == old(self).folder_name
                &&& final(self).files@ == old(self).files@
                &&& final(self).current_file == old(self).current_file
                &&& final(self).total_bytes == old(self).total_bytes
                &&& final(self).file_chunks@ == old(self).file_chunks@
                &&& final(self).chunk_size == old(self).chunk_size
            },
            old(self).wf() && file_index < old(self).files@.len() ==> final(self).wf(),
    {
        proof {
            if old(self).wf() && !old(self).completed_files@.contains(file_index) {
                lemma_done_push(old(self).files@, old(self).completed_files@, file_index);
                let c = old(self).completed_files@;
                assert forall|k: int| 0 <= k < c.len() implies c.push(file_index)[k] == c[k] by {}
            }
        }
        if !contains_usize(&self.completed_files, file_index) {
            self.completed_files.push(file_index);
            if file_index < self.files.len() {
                self.transferred_bytes = self.transferred_bytes + self.files[file_index].size;
            }
        }
    }

    /// The first file not yet completed.
    pub fn next_file(&self) -> (r: Option<usize>)
        ensures
            r == first_unlisted(self.completed_files@, self.files@.len()),
    {
        first_unlisted_index(&self.completed_files, self.files.len())
    }

    /// Whether as many files are recorded complete as the transfer has.
    pub fn is_complete(&self) -> (r: bool)
        ensures
            r == (self.completed_files@.len() == self.files@.len()),
    {
        self.completed_files.len() == self.files.len()
    }

    /// Where a resumed send starts: the first unfinished file with the
    /// chunks already recorded for it, when there are any.
    pub fn resume_point(&self, transfer_id: TransferId) -> (r: Option<ResumePoint>)
        ensures
            match first_unlisted(self.completed_files@, self.files@.len()) {
                None => r is None,
                Some(i) => if self.chunks_of(i).len() == 0 {
                    r is None
                } else {
                    r matches Some(p) && p.transfer_id == transfer_id && p.file_index == i as u32
                        && p.completed_chunks@ == self.chunks_of(i)
                },
            },
    {
        match self.next_file() {
            None => None,
            Some(i) => {
                let completed = self.get_completed_chunks(i);
                if completed.len() == 0 {
                    None
                } else {
                    Some(
                        ResumePoint {
                            transfer_id,
                            file_index: i as u32,
                            completed_chunks: copy_u64s(completed),
                        },
                    )
                }
            },
        }
    }
}

/// Bytes a resumed receive already holds: every file before the resume
/// point, plus the recorded chunks of the file it names (that whole file
/// when as many chunks are recorded as it has).
pub open spec fn spec_resumed_bytes(
    items: Seq<FileMetadata>,
    file_index: int,
    completed_count: int,
    chunk_size: int,
) -> int {
    if file_index < items.len() {
        let size = items[file_index].size as int;
        let total = (size + chunk_size - 1) / chunk_size;
        sum_sizes(items.take(file_index)) + if completed_count < total {
            completed_count * chunk_size
        } else {
            size
        }
    } else {
        sum_sizes(items)
    }
}

/// Bytes of `items` a receiver already holds when the sender resumes at
/// `resume`.
pub fn resumed_bytes(items: &[FileMetadata], resume: &ResumePoint, chunk_size: u32) -> (r: u64)
    requires
        chunk_size > 0,
        sum_sizes(items@) <= u64::MAX,
        resume.file_index < items@.len() ==> items@[resume.file_index as int].size + chunk_size - 1
            <= u64::MAX,
    ensures
        r == spec_resumed_bytes(
            items@,
            resume.file_index as int,
            resume.completed_chunks@.len() as int,
            chunk_size as int,
        ),
{
    let file_index = resume.file_index as usize;
    let limit = if file_index < items.len() {
        file_index
    } else {
        items.len()
    };
    let mut before: u64 = 0;
    let mut i: usize = 0;
    while i < limit
        invariant
            i <= limit <= items@.len(),
            before == sum_sizes(items@.take(i as int)),
            sum_sizes(items@) <= u64::MAX,
        decreases limit - i,
    {
        proof {
            assert(items@.take(i + 1).drop_last() == items@.take(i as int));
            lemma_sum_sizes_prefix(items@, i + 1);
        }
        before = before + items[i].size;
        i = i + 1;
    }
    if file_index < items.len() {
        let cs = chunk_size as u64;
        let size = items[file_index].size;
        let total_chunks = (size + (cs - 1)) / cs;
        let completed = resume.completed_chunks.len() as u64;
        proof {
            assert(items@.take(file_index + 1).drop_last() == items@.take(file_index as int));
            lemma_sum_sizes_prefix(items@, file_index + 1);
            let ghost (c, n, z, t) = (completed as int, cs as int, size as int, total_chunks as int);
            assert(c < t ==> c * n < z) by (nonlinear_arith)
                requires
                    t == (z + n - 1) / n,
                    n > 0,
                    c >= 0,
                    z >= 0,
            {
                if c < t {
                    assert(c * n <= (t - 1) * n);
                    assert(((z + n - 1) / n) * n <= z + n - 1);
                    assert((t - 1) * n == t * n - n);
                }
            }
        }
        let added = if completed < total_chunks {
            completed * cs
        } else {
            size
        };
        before + added
    } else {
        proof {
            assert(items@.take(items@.len() as int) == items@);
        }
        before
    }
}

/// The lowest index below `n` that `completed` does not list.
pub fn first_unlisted_index(completed: &Vec<usize>, n: usize) -> (r: Option<usize>)
    ensures
        r == first_unlisted(completed@, n as nat),
{
    let mut i: usize = 0;
    while i < n
        invariant
            i <= n,
            first_unlisted(completed@, i as nat) is None,
        decreases n - i,
    {
        if !contains_usize(completed, i) {
            proof {
                lemma_first_unlisted_stable(completed@, (i + 1) as nat, n as nat);
            }
            return Some(i);
        }
        i = i + 1;
    }
    None
}

/// The receiver's comparison of the digest it computed for a file with the
/// one the sender announced: a mismatch fails the transfer.
pub fn check_received_checksum(ours: &[u8; 32], theirs: &[u8; 32]) -> (r: Result<(), Error>)
    ensures
        r is Ok <==> ours@ == theirs@,
        r is Err ==> r matches Err(Error::Verification(_)),
{
    if digest_eq(ours, theirs) {
        Ok(())
    } else {
        Err(Error::Verification("File checksum mismatch".to_string()))
    }
}

/// A file announcement as plain values: path, size, modification time
/// and checksum.
pub open spec fn file_view(m: FileMetadata) -> (Seq<char>, u64, u64, Seq<u8>) {
    (m.path@, m.size, m.modified, m.checksum@)
}

/// A copy of a file announcement.
fn copy_file_metadata(m: &FileMetadata) -> (r: FileMetadata)
    ensures
        file_view(r) == file_view(*m),
{
    FileMetadata { path: m.path.clone(), size: m.size, modified: m.modified, checksum: m.checksum }
}

/// The `TransferInfo` that announces a send of `state`: its identifier,
/// every file, where a resumed send picks up, and the files already
/// completed.
pub fn announcement(state: &FolderTransferState) -> (r: TransferInfo)
    ensures
        r.transfer_id == state.transfer_id,
        r.items@.len() == state.files@.len(),
        forall|k: int| 0 <= k < state.files@.len() ==> file_view(#[trigger] r.items@[k]) == file_view(
            state.files@[k],
        ),
        r.completed_files@.len() == state.completed_files@.len(),
        forall|k: int|
            0 <= k < state.completed_files@.len() ==> #[trigger] r.completed_files@[k]
                == state.completed_files@[k] as u32,
        match first_unlisted(state.completed_files@, state.files@.len()) {
            None => r.resume_from is None,
            Some(i) => if state.chunks_of(i).len() == 0 {
                r.resume_from is None
            } else {
                r.resume_from matches Some(p) && p.transfer_id == state.transfer_id && p.file_index
                    == i as u32 && p.completed_chunks@ == state.chunks_of(i)
            },
        },
{
    let mut items: Vec<FileMetadata> = Vec::new();
    let mut i: usize = 0;
    while i < state.files.len()
        invariant
            i <= state.files@.len(),
            items@.len() == i,
            forall|k: int| 0 <= k < i ==> file_view(#[trigger] items@[k]) == file_view(state.files@[k]),
        decreases state.files@.len() - i,
    {
        items.push(copy_file_metadata(&state.files[i]));
        i = i + 1;
    }
    let mut completed: Vec<u32> = Vec::new();
    let mut j: usize = 0;
    while j < state.completed_files.len()
        invariant
            j <= state.completed_files@.len(),
            completed@.len() == j,
            forall|k: int| 0 <= k < j ==> #[trigger] completed@[k] == state.completed_files@[k] as u32,
        decreases state.completed_files@.len() - j,
    {
        completed.push(state.completed_files[j] as u32);
        j = j + 1;
    }
    TransferInfo {
        transfer_id: state.transfer_id,
        items,
        resume_from: state.resume_point(state.transfer_id),
        completed_files: completed,
    }
}

/// The sender waits for `Ready` after announcing the transfer.
pub fn expect_ready(msg: &Message) -> (r: Result<(), Error>)
    ensures
        r is Ok <==> msg is Ready,
        r is Err ==> r matches Err(Error::Protocol(_)),
{
    match msg {
        Message::Ready => Ok(()),
        _ => Err(Error::Protocol("Expected Ready".to_string())),
    }
}

/// The receiver's first message must announce a non-empty transfer.
pub fn expect_transfer_info(msg: Message) -> (r: Result<TransferInfo, Error>)
    ensures
        match msg {
            Message::TransferInfo(info) => if info.items@.len() == 0 {
                r matches Err(Error::Protocol(_))
            } else {
                r matches Ok(i) && i == info
            },
            _ => r matches Err(Error::Protocol(_)),
        },
{
    match msg {
        Message::TransferInfo(info) => {
            if info.items.len() == 0 {
                Err(Error::Protocol("No files in transfer".to_string()))
            } else {
                Ok(info)
            }
        },
        _ => Err(Error::Protocol("Expected TransferInfo".to_string())),
    }
}

/// The sender's check of the receiver's checksum reply for a file: it must
/// be a checksum message carrying the sender's own digest.
pub fn check_peer_checksum(ours: &[u8; 32], msg: &Message) -> (r: Result<(), Error>)
    ensures
        match msg {
            Message::FileChecksum(m) => (r is Ok <==> m.checksum@ == ours@) && (r is Err ==> r matches Err(
                Error::Verification(_),
            )),
            _ => r matches Err(Error::Protocol(_)),
        },
{
    match msg {
        Message::FileChecksum(m) => {
            if digest_eq(&m.checksum, ours) {
                Ok(())
            } else {
                Err(Error::Verification("File checksum mismatch".to_string()))
            }
        },
        _ => Err(Error::Protocol("Expected FileChecksum".to_string())),
    }
}

/// The receiver's reading of the sender's checksum message for file
/// `file_index`: the digest it carries, when it is about that file.
pub fn peer_checksum_for(file_index: u32, msg: &Message) -> (r: Result<[u8; 32], Error>)
    ensures
        match msg {
            Message::FileChecksum(m) => if m.file_index == file_index {
                r matches Ok(c) && c == m.checksum
            } else {
                r matches Err(Error::Protocol(_))
            },
            _ => r matches Err(Error::Protocol(_)),
        },
{
    match msg {
        Message::FileChecksum(m) => {
            if m.file_index == file_index {
                Ok(m.checksum)
            } else {
                Err(Error::Protocol("File index mismatch".to_string()))
            }
        },
        _ => Err(Error::Protocol("Expected FileChecksum".to_string())),
    }
}

/// Whether `v` lists `x`.
fn contains_usize(v: &Vec<usize>, x: usize) -> (r: bool)
    ensures
        r == v@.contains(x),
{
    let mut j: usize = 0;
    while j < v.len()
        invariant
            j <= v@.len(),
            forall|k: int| 0 <= k < j ==> v@[k] != x,
        decreases v@.len() - j,
    {
        if v[j] == x {
            assert(v@[j as int] == x);
            return true;
        }
        j = j + 1;
    }
    false
}

/// A copy of `s` as a vector.
fn copy_u64s(s: &[u64]) -> (r: Vec<u64>)
    ensures
        r@ == s@,
{
    let mut out: Vec<u64> = Vec::new();
    let mut i: usize = 0;
    while i < s.len()
        invariant
            i <= s@.len(),
            out@ == s@.take(i as int),
        decreases s@.len() - i,
    {
        out.push(s[i]);
        proof {
            assert(s@.take(i + 1) == s@.take(i as int).push(s@[i as int]));
        }
        i = i + 1;
    }
    proof {
        assert(s@.take(s@.len() as int) == s@);
    }
    out
}

/// Total size of `files`.
pub fn total_size(files: &[FileMetadata]) -> (r: u64)
    requires
        sum_sizes(files@) <= u64::MAX,
    ensures
        r == sum_sizes(files@),
{
    let mut sum: u64 = 0;
    let mut i: usize = 0;
    while i < files.len()
        invariant
            i <= files@.len(),
            sum == sum_sizes(files@.take(i as int)),
            sum_sizes(files@) <= u64::MAX,
        decreases files@.len() - i,
    {
        proof {
            assert(files@.take(i + 1).drop_last() == files@.take(i as int));
            lemma_sum_sizes_prefix(files@, i + 1);
        }
        sum = sum + files[i].size;
        i = i + 1;
    }
    proof {
        assert(files@.take(files@.len() as int) == files@);
    }
    sum
}

/// The sum over a prefix is at most the sum over the whole list.
pub proof fn lemma_sum_sizes_prefix(files: Seq<FileMetadata>, k: int)
    requires
        0 <= k <= files.len(),
    ensures
        0 <= sum_sizes(files.take(k)) <= sum_sizes(files),
    decreases files.len(),
{
    if k == files.len() {
        assert(files.take(k) == files);
        lemma_sum_sizes_nonneg(files);
    } else {
        assert(files.drop_last().take(k) == files.take(k));
        lemma_sum_sizes_prefix(files.drop_last(), k);
    }
}

/// Sums of sizes are never negative.
pub proof fn lemma_sum_sizes_nonneg(files: Seq<FileMetadata>)
    ensures
        sum_sizes(files) >= 0,
    decreases files.len(),
{
    if files.len() > 0 {
        lemma_sum_sizes_nonneg(files.drop_last());
    }
}

/// Recording one more file adds its size to the completed bytes (nothing
/// when the index names no file of the list).
proof fn lemma_done_push(files: Seq<FileMetadata>, completed: Seq<usize>, x: usize)
    requires
        !completed.contains(x),
        files.len() <= usize::MAX,
    ensures
        done_bytes(files, completed.push(x)) == done_bytes(files, completed) + if x < files.len() {
            files[x as int].size as int
        } else {
            0
        },
    decreases files.len(),
{
    if files.len() > 0 {
        let m = (files.len() - 1) as usize;
        lemma_done_push(files.drop_last(), completed, x);
        assert(completed.push(x).contains(m) <==> (completed.contains(m) || x == m)) by {
            if completed.contains(m) {
                let k = choose|k: int| 0 <= k < completed.len() && completed[k] == m;
                assert(completed.push(x)[k] == m);
            }
            if x == m {
                assert(completed.push(x)[completed.len() as int] == m);
            }
            if completed.push(x).contains(m) {
                let k = choose|k: int| 0 <= k < completed.push(x).len() && completed.push(x)[k] == m;
                if k < completed.len() {
                    assert(completed[k] == m);
                }
            }
        }
        if x < m {
            assert(files.drop_last()[x as int] == files[x as int]);
        }
    }
}

/// With nothing listed, no bytes are completed.
proof fn lemma_done_none(files: Seq<FileMetadata>, completed: Seq<usize>)
    requires
        completed.len() == 0,
    ensures
        done_bytes(files, completed) == 0,
    decreases files.len(),
{
    if files.len() > 0 {
        lemma_done_none(files.drop_last(), completed);
    }
}

/// The completed bytes never exceed the total.
proof fn lemma_done_le_sum(files: Seq<FileMetadata>, completed: Seq<usize>)
    ensures
        0 <= done_bytes(files, completed) <= sum_sizes(files),
    decreases files.len(),
{
    if files.len() > 0 {
        lemma_done_le_sum(files.drop_last(), completed);
    }
}

/// When every file is listed, the completed bytes are the total.
proof fn lemma_done_all(files: Seq<FileMetadata>, completed: Seq<usize>)
    requires
        files.len() <= usize::MAX,
        forall|j: int| 0 <= j < files.len() ==> #[trigger] completed.contains(j as usize),
    ensures
        done_bytes(files, completed) == sum_sizes(files),
    decreases files.len(),
{
    if files.len() > 0 {
        assert(completed.contains((files.len() - 1) as usize));
        lemma_done_all(files.drop_last(), completed);
    }
}

/// Listing one more index adds one to the count when it lies in `0..n`.
proof fn lemma_count_push(completed: Seq<usize>, x: usize, n: nat)
    requires
        !completed.contains(x),
        n <= usize::MAX,
    ensures
        count_listed(completed.push(x), n) == count_listed(completed, n) + if x < n {
            1int
        } else {
            0int
        },
    decreases n,
{
    if n > 0 {
        let m = (n - 1) as usize;
        lemma_count_push(completed, x, (n - 1) as nat);
        assert(completed.push(x).contains(m) <==> (completed.contains(m) || x == m)) by {
            if completed.contains(m) {
                let k = choose|k: int| 0 <= k < completed.len() && completed[k] == m;
                assert(completed.push(x)[k] == m);
            }
            if x == m {
                assert(completed.push(x)[completed.len() as int] == m);
            }
            if completed.push(x).contains(m) {
                let k = choose|k: int| 0 <= k < completed.push(x).len() && completed.push(x)[k] == m;
                if k < completed.len() {
                    assert(completed[k] == m);
                }
            }
        }
    }
}

/// A list without repeats, all below `n`, lists exactly as many indices
/// of `0..n` as it has entries.
proof fn lemma_count_len(completed: Seq<usize>, n: nat)
    requires
        completed.no_duplicates(),
        forall|k: int| 0 <= k < completed.len() ==> completed[k] < n,
        n <= usize::MAX,
    ensures
        count_listed(completed, n) == completed.len(),
    decreases completed.len(),
{
    if completed.len() == 0 {
        lemma_count_none(completed, n);
    } else {
        let rest = completed.drop_last();
        let x = completed.last();
        assert(rest.push(x) == completed);
        assert(!rest.contains(x)) by {
            if rest.contains(x) {
                let k = choose|k: int| 0 <= k < rest.len() && rest[k] == x;
                assert(completed[k] == completed[completed.len() - 1]);
            }
        }
        assert forall|i: int, j: int|
            0 <= i < rest.len() && 0 <= j < rest.len() && i != j implies rest[i] != rest[j] by {
            assert(completed[i] != completed[j]);
        }
        lemma_count_len(rest, n);
        lemma_count_push(rest, x, n);
    }
}

/// An empty list lists nothing.
proof fn lemma_count_none(completed: Seq<usize>, n: nat)
    requires
        completed.len() == 0,
    ensures
        count_listed(completed, n) == 0,
    decreases n,
{
    if n > 0 {
        lemma_count_none(completed, (n - 1) as nat);
    }
}

/// At most `n` indices of `0..n` are listed, and all of them are exactly
/// when the count is `n`.
proof fn lemma_count_full(completed: Seq<usize>, n: nat)
    requires
        n <= usize::MAX,
    ensures
        count_listed(completed, n) <= n,
        count_listed(completed, n) == n <==> forall|j: int|
            0 <= j < n ==> #[trigger] completed.contains(j as usize),
    decreases n,
{
    if n > 0 {
        lemma_count_full(completed, (n - 1) as nat);
        if count_listed(completed, n) == n {
            assert forall|j: int| 0 <= j < n implies #[trigger] completed.contains(j as usize) by {
                if j < n - 1 {
                } else {
                    assert(j == n - 1);
                }
            }
        }
        if forall|j: int| 0 <= j < n ==> #[trigger] completed.contains(j as usize) {
            assert(completed.contains((n - 1) as usize));
        }
    }
}

/// No index of `0..n` is unlisted exactly when all of them are listed.
proof fn lemma_first_unlisted_none(completed: Seq<usize>, n: nat)
    requires
        n <= usize::MAX,
    ensures
        first_unlisted(completed, n) is None <==> forall|j: int|
            0 <= j < n ==> #[trigger] completed.contains(j as usize),
    decreases n,
{
    if n > 0 {
        lemma_first_unlisted_none(completed, (n - 1) as nat);
        if first_unlisted(completed, n) is None {
            assert forall|j: int| 0 <= j < n implies #[trigger] completed.contains(j as usize) by {
                if j == n - 1 {
                }
            }
        }
    }
}

/// In a well-formed state the transferred bytes never exceed the total;
/// the transfer is complete exactly when no file is left to send, and then
/// every byte counts as transferred.
pub proof fn lemma_complete_iff_nothing_left(s: FolderTransferState)
    requires
        s.wf(),
    ensures
        s.transferred_bytes <= s.total_bytes,
        (s.completed_files@.len() == s.files@.len()) <==> first_unlisted(
            s.completed_files@,
            s.files@.len(),
        ) is None,
        s.completed_files@.len() == s.files@.len() ==> s.transferred_bytes == s.total_bytes,
{
    let n = s.files@.len();
    let c = s.completed_files@;
    lemma_done_le_sum(s.files@, c);
    lemma_count_len(c, n);
    lemma_count_full(c, n);
    lemma_first_unlisted_none(c, n);
    if c.len() == n {
        lemma_done_all(s.files@, c);
    }
}

/// In a well-formed state, recording a file of the transfer that is not yet
/// recorded never overflows the transferred-bytes counter.
pub proof fn lemma_mark_file_complete_fits(s: FolderTransferState, file_index: usize)
    requires
        s.wf(),
        file_index < s.files@.len(),
        !s.completed_files@.contains(file_index),
    ensures
        s.transferred_bytes + s.files@[file_index as int].size <= u64::MAX,
{
    lemma_done_push(s.files@, s.completed_files@, file_index);
    lemma_done_le_sum(s.files@, s.completed_files@.push(file_index));
}

/// Once an index of `0..n` is unlisted, the first unlisted index of any
/// longer range is the same.
proof fn lemma_first_unlisted_stable(completed: Seq<usize>, n: nat, m: nat)
    requires
        n <= m,
        first_unlisted(completed, n) is Some,
    ensures
        first_unlisted(completed, m) == first_unlisted(completed, n),
    decreases m - n,
{
    if n < m {
        lemma_first_unlisted_stable(completed, n, (m - 1) as nat);
    }
}

} // verus!
