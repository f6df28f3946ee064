//! The steps of a folder transfer: the receiver's check of the relative
//! paths it is sent, and the order in which the sender and the receiver
//! exchange announcements, files, checksums and completion.

use vstd::prelude::*;
use vstd::string::StrSliceExecFns;

use crate::error::Error;
use crate::protocol::Message;
use crate::transfer_folder::{
    check_peer_checksum, check_received_checksum, expect_ready, expect_transfer_info, first_unlisted,
    first_unlisted_index, peer_checksum_for,
};

verus! {

/// Whether `c` separates path components (either slash).
pub open spec fn is_sep(c: char) -> bool {
    c == '/' || c == '\\'
}

/// Whether `p[s..e]` is a component of `p`: a maximal run of characters
/// that are not separators.
pub open spec fn is_component(p: Seq<char>, s: int, e: int) -> bool {
    &&& 0 <= s <= e <= p.len()
    &&& (s == 0 || is_sep(p[s - 1]))
    &&& (e == p.len() || is_sep(p[e]))
    &&& forall|k: int| s <= k < e ==> !is_sep(#[trigger] p[k])
}

/// Whether a name is `.` or `..`.
pub open spec fn is_dot_name(c: Seq<char>) -> bool {
    c == seq!['.'] || c == seq!['.', '.']
}

/// A safe relative path: no `:` anywhere (no drive letter or stream),
/// and every component non-empty and neither `.` nor `..`. An empty path,
/// a leading separator (an absolute path or a UNC root), a doubled or a
/// trailing separator all make an empty component.
pub open spec fn spec_safe_path(p: Seq<char>) -> bool {
    &&& forall|k: int| 0 <= k < p.len() ==> #[trigger] p[k] != ':'
    &&& forall|s: int, e: int| #[trigger] is_component(p, s, e) ==> s < e && !is_dot_name(p.subrange(s, e))
}

/// A name that may stand as one component of a safe path.
pub open spec fn is_safe_name(c: Seq<char>) -> bool {
    &&& c.len() > 0
    &&& !is_dot_name(c)
    &&& forall|k: int| 0 <= k < c.len() ==> !is_sep(#[trigger] c[k]) && c[k] != ':'
}

/// Whether `p[s..e]` is acceptable as a component: non-empty, not a dot name.
fn component_ok(p: &str, s: usize, e: usize) -> (r: bool)
    requires
        s <= e <= p@.len(),
    ensures
        r == (s < e && !is_dot_name(p@.subrange(s as int, e as int))),
{
    if s == e {
        return false;
    }
    let first = p.get_char(s);
    if e - s == 1 {
        proof {
            if first == '.' {
                assert(p@.subrange(s as int, e as int) =~= seq!['.']);
            } else {
                assert(p@.subrange(s as int, e as int)[0] != '.');
            }
        }
        return first != '.';
    }
    if e - s == 2 {
        let second = p.get_char(s + 1);
        proof {
            assert(seq!['.'].len() == 1);
            assert(seq!['.', '.'][0] == '.' && seq!['.', '.'][1] == '.');
            assert(p@.subrange(s as int, e as int)[1] == second);
            if first == '.' && second == '.' {
                assert(p@.subrange(s as int, e as int) =~= seq!['.', '.']);
            } else if first != '.' {
                assert(p@.subrange(s as int, e as int)[0] != '.');
            } else {
                assert(p@.subrange(s as int, e as int)[1] != '.');
            }
        }
        return !(first == '.' && second == '.');
    }
    proof {
        assert(p@.subrange(s as int, e as int).len() > 2);
    }
    true
}

/// The pieces of `p` between separators, in order (one empty piece for an
/// empty text).
pub open spec fn split_components(p: Seq<char>) -> Seq<Seq<char>>
    decreases p.len(),
{
    if p.len() == 0 {
        seq![Seq::<char>::empty()]
    } else {
        let rest = split_components(p.drop_last());
        if is_sep(p.last()) {
            rest.push(Seq::<char>::empty())
        } else {
            rest.update(rest.len() - 1, rest.last().push(p.last()))
        }
    }
}

/// The texts of `parts`.
pub open spec fn texts(parts: Seq<String>) -> Seq<Seq<char>> {
    parts.map_values(|s: String| s@)
}

/// The components of a relative path received from a peer, in order, or
/// `None` when the path is not safe to join onto the output directory.
pub fn safe_relative_path(p: &str) -> (r: Option<Vec<String>>)
    ensures
        r is Some <==> spec_safe_path(p@),
        r matches Some(parts) ==> parts@.len() > 0 && forall|k: int|
            0 <= k < parts@.len() ==> is_safe_name(#[trigger] parts@[k]@),
        r matches Some(parts) ==> texts(parts@) == split_components(p@),
{
    let n = p.unicode_len();
    let mut parts: Vec<String> = Vec::new();
    let mut start: usize = 0;
    let mut i: usize = 0;
    proof {
        assert(p@.take(0) =~= Seq::<char>::empty());
        assert(p@.subrange(0, 0) =~= Seq::<char>::empty());
        assert(texts(parts@) =~= Seq::<Seq<char>>::empty());
    }
    while i < n
        invariant
            n == p@.len(),
            start <= i <= n,
            start == 0 || is_sep(p@[start - 1]),
            forall|k: int| start <= k < i ==> !is_sep(#[trigger] p@[k]),
            forall|k: int| 0 <= k < i ==> #[trigger] p@[k] != ':',
            forall|s: int, e: int|
                #[trigger] is_component(p@, s, e) && e < i ==> s < e && !is_dot_name(p@.subrange(s, e)),
            forall|k: int| 0 <= k < parts@.len() ==> is_safe_name(#[trigger] parts@[k]@),
            split_components(p@.take(i as int)) == texts(parts@).push(p@.subrange(start as int, i as int)),
        decreases n - i,
    {
        proof {
            assert(p@.take(i + 1).drop_last() =~= p@.take(i as int));
            assert(p@.take(i + 1).last() == p@[i as int]);
        }
        let c = p.get_char(i);
        if c == ':' {
            proof {
                assert(p@[i as int] == ':');
            }
            return None;
        }
        if c == '/' || c == '\\' {
            proof {
                assert(is_component(p@, start as int, i as int));
            }
            if !component_ok(p, start, i) {
                return None;
            }
            let part = p.substring_char(start, i).to_string();
            proof {
                let q = p@.subrange(start as int, i as int);
                assert(part@ == q);
                assert forall|k: int| 0 <= k < q.len() implies !is_sep(#[trigger] q[k]) && q[k] != ':' by {
                    assert(q[k] == p@[start + k]);
                }
                assert forall|s: int, e: int|
                    #[trigger] is_component(p@, s, e) && e < i + 1 implies s < e && !is_dot_name(
                        p@.subrange(s, e),
                    ) by {
                    if e == i {
                        if s < start {
                            assert(!is_sep(p@[start - 1]));
                        }
                        if s > start {
                            assert(!is_sep(p@[s - 1]));
                        }
                    }
                }
            }
            let ghost before = parts@;
            parts.push(part);
            proof {
                assert(texts(parts@) =~= texts(before).push(p@.subrange(start as int, i as int)));
                assert(p@.subrange(i + 1, i + 1) =~= Seq::<char>::empty());
                assert(split_components(p@.take(i + 1)) == split_components(p@.take(i as int)).push(
                    Seq::<char>::empty(),
                ));
            }
            start = i + 1;
        } else {
            proof {
                let rest = split_components(p@.take(i as int));
                assert(rest.len() == texts(parts@).len() + 1);
                assert(p@.subrange(start as int, i + 1) =~= p@.subrange(start as int, i as int).push(
                    p@[i as int],
                ));
                assert(split_components(p@.take(i + 1)) =~= texts(parts@).push(
                    p@.subrange(start as int, i + 1),
                ));
                assert forall|s: int, e: int|
                    #[trigger] is_component(p@, s, e) && e < i + 1 implies s < e && !is_dot_name(
                        p@.subrange(s, e),
                    ) by {
                    if e == i {
                        assert(is_sep(p@[e]));
                    }
                }
            }
        }
        i = i + 1;
    }
    proof {
        assert(is_component(p@, start as int, n as int));
        assert(p@.take(n as int) =~= p@);
    }
    if !component_ok(p, start, n) {
        return None;
    }
    let last = p.substring_char(start, n).to_string();
    proof {
        let q = p@.subrange(start as int, n as int);
        assert(last@ == q);
        assert forall|k: int| 0 <= k < q.len() implies !is_sep(#[trigger] q[k]) && q[k] != ':' by {
            assert(q[k] == p@[start + k]);
        }
        assert forall|s: int, e: int| #[trigger] is_component(p@, s, e) implies s < e && !is_dot_name(
            p@.subrange(s, e),
        ) by {
            if e == n {
                if s < start {
                    assert(!is_sep(p@[start - 1]));
                }
                if s > start {
                    assert(!is_sep(p@[s - 1]));
                }
            }
        }
    }
    let ghost before = parts@;
    parts.push(last);
    proof {
        assert(texts(parts@) =~= texts(before).push(p@.subrange(start as int, n as int)));
    }
    Some(parts)
}

/// The first unlisted index below `n` is below `n`, not listed, and every
/// index before it is listed; when there is none, every index below `n`
/// is listed.
pub proof fn lemma_first_unlisted_is_first(c: Seq<usize>, n: nat)
    ensures
        match first_unlisted(c, n) {
            Some(f) => f < n && !c.contains(f) && forall|j: usize| j < f ==> #[trigger] c.contains(j),
            None => forall|j: usize| j < n ==> #[trigger] c.contains(j),
        },
    decreases n,
{
    if n > 0 {
        lemma_first_unlisted_is_first(c, (n - 1) as nat);
    }
}

/// Where a folder send stands.
#[derive(Debug, Clone, Copy, PartialEq, Eq, Structural)]
pub enum SendPhase {
    /// Nothing sent yet
    Start,
    /// The transfer was announced; waiting for `Ready`
    AwaitReady,
    /// File `file` was sent; waiting for the receiver's checksum of it
    AwaitChecksum { file: usize },
    /// Every file confirmed and completion sent
    Finished,
    /// The send stopped on an error
    Failed,
}

/// The sender's side of a folder transfer: how many files it has, which
/// are confirmed (those a resumed transfer had finished included), and
/// where it stands.
#[derive(Debug, Clone)]
pub struct FolderSendState {
    pub file_count: usize,
    pub completed: Vec<usize>,
    pub phase: SendPhase,
}

/// What happened since the last step of a send.
#[derive(Debug, Clone)]
pub enum SendEvent {
    /// The send starts
    Begin,
    /// The receiver answered the announcement with `reply`
    Reply(Message),
    /// The current file was sent with digest `ours`; the receiver answered
    /// `reply`
    FileChecksum { ours: [u8; 32], reply: Message },
}

/// What the sender does next.
#[derive(Debug, Clone)]
pub enum SendAction {
    /// Send the `TransferInfo`: every file, with the completed ones listed
    Announce,
    /// Send the pending chunks of file `file`, then its checksum
    SendFile { file: usize },
    /// File `file` is confirmed: record it and save the state; then send
    /// file `next`, or completion when there is none
    FileDone { file: usize, next: Option<usize> },
    /// Send completion: every file is confirmed
    Complete,
    /// Stop with `error`: the receiver's answer was not the expected one,
    /// or an event came out of turn
    Fail { error: Error },
}

/// Where a send goes after confirming files `completed`: the first file
/// still to send, or completion.
pub open spec fn send_next(file_count: usize, completed: Seq<usize>) -> (SendPhase, Option<usize>) {
    match first_unlisted(completed, file_count as nat) {
        Some(f) => (SendPhase::AwaitChecksum { file: f }, Some(f)),
        None => (SendPhase::Finished, None),
    }
}

/// One step of a send: its new state and what to do, from its state and
/// what happened. The announcement comes first; after `Ready` each file
/// not yet confirmed is sent in turn, and after each file's checksum is
/// confirmed the next one; completion follows the last file. An answer
/// that is not the expected one, or an event out of turn, fails the send.
pub fn send_step(s: &FolderSendState, ev: SendEvent) -> (r: (FolderSendState, SendAction))
    ensures
        r.0.file_count == s.file_count,
        r.1 matches SendAction::SendFile { file } ==> file < s.file_count && !r.0.completed@.contains(
            file,
        ),
        r.1 matches SendAction::FileDone { next: Some(g), .. } ==> g < s.file_count
            && !r.0.completed@.contains(g),
        (r.1 is Complete || (r.1 matches SendAction::FileDone { next: None, .. }))
            ==> forall|j: usize| j < s.file_count ==> #[trigger] r.0.completed@.contains(j),
        match (s.phase, ev) {
            (SendPhase::Start, SendEvent::Begin) => r.0.phase == SendPhase::AwaitReady && r.1 is Announce
                && r.0.completed@ == s.completed@,
            (SendPhase::AwaitReady, SendEvent::Reply(m)) => if m is Ready {
                r.0.completed@ == s.completed@ && r.0.phase == send_next(s.file_count, s.completed@).0
                    && match send_next(s.file_count, s.completed@).1 {
                    Some(f) => r.1 matches SendAction::SendFile { file: g } && g == f,
                    None => r.1 is Complete,
                }
            } else {
                r.0.phase == SendPhase::Failed && r.1 matches SendAction::Fail { error: Error::Protocol(_) }
            },
            (SendPhase::AwaitChecksum { file }, SendEvent::FileChecksum { ours, reply }) => if (
            reply matches Message::FileChecksum(m) && m.checksum@ == ours@) {
                &&& r.0.completed@ == s.completed@.push(file)
                &&& r.0.phase == send_next(s.file_count, s.completed@.push(file)).0
                &&& r.1 matches SendAction::FileDone { file: f, next }
                &&& f == file
                &&& next == send_next(s.file_count, s.completed@.push(file)).1
            } else {
                &&& r.0.phase == SendPhase::Failed
                &&& r.1 matches SendAction::Fail { error }
                &&& reply is FileChecksum ==> error is Verification
                &&& !(reply is FileChecksum) ==> error is Protocol
            },
            _ => r.0.phase == SendPhase::Failed && r.1 matches SendAction::Fail { error: Error::Protocol(_) },
        },
{
    proof {
        lemma_first_unlisted_is_first(s.completed@, s.file_count as nat);
    }
    let mut completed = s.completed.clone();
    match (s.phase, ev) {
        (SendPhase::Start, SendEvent::Begin) => (
            FolderSendState { file_count: s.file_count, completed, phase: SendPhase::AwaitReady },
            SendAction::Announce,
        ),
        (SendPhase::AwaitReady, SendEvent::Reply(m)) => {
            let ready = expect_ready(&m);
            if let Err(error) = ready {
                (
                    FolderSendState { file_count: s.file_count, completed, phase: SendPhase::Failed },
                    SendAction::Fail { error },
                )
            } else {
                match first_unlisted_index(&completed, s.file_count) {
                    Some(f) => (
                        FolderSendState {
                            file_count: s.file_count,
                            completed,
                            phase: SendPhase::AwaitChecksum { file: f },
                        },
                        SendAction::SendFile { file: f },
                    ),
                    None => (
                        FolderSendState { file_count: s.file_count, completed, phase: SendPhase::Finished },
                        SendAction::Complete,
                    ),
                }
            }
        },
        (SendPhase::AwaitChecksum { file }, SendEvent::FileChecksum { ours, reply }) => {
            let checked = check_peer_checksum(&ours, &reply);
            if let Err(error) = checked {
                (
                    FolderSendState { file_count: s.file_count, completed, phase: SendPhase::Failed },
                    SendAction::Fail { error },
                )
            } else {
                completed.push(file);
                proof {
                    lemma_first_unlisted_is_first(completed@, s.file_count as nat);
                }
                let next = first_unlisted_index(&completed, s.file_count);
                let phase = match next {
                    Some(f) => SendPhase::AwaitChecksum { file: f },
                    None => SendPhase::Finished,
                };
                (
                    FolderSendState { file_count: s.file_count, completed, phase },
                    SendAction::FileDone { file, next },
                )
            }
        },
        _ => (
            FolderSendState { file_count: s.file_count, completed, phase: SendPhase::Failed },
            SendAction::Fail { error: Error::Protocol("Unexpected event in a folder send".to_string()) },
        ),
    }
}

/// Where a folder receive stands.
#[derive(Debug, Clone, Copy, PartialEq, Eq, Structural)]
pub enum ReceivePhase {
    /// Waiting for the sender's announcement
    Start,
    /// Receiving file `file`: its chunks, then the sender's checksum
    AwaitFile { file: usize },
    /// Every file received; waiting for completion
    AwaitComplete,
    /// Completion received
    Finished,
    /// The receive stopped on an error
    Failed,
}

/// The receiver's side of a folder transfer: how many files were
/// announced, which need nothing more (those the sender listed as
/// completed, and those confirmed since), and where it stands.
#[derive(Debug, Clone)]
pub struct FolderReceiveState {
    pub file_count: usize,
    pub done: Vec<usize>,
    pub phase: ReceivePhase,
}

/// What happened since the last step of a receive.
#[derive(Debug, Clone)]
pub enum ReceiveEvent {
    /// The sender's first message
    Announced(Message),
    /// The current file's chunks arrived and hash to `ours`; the sender's
    /// next control message was `msg`
    FileChecksum { ours: [u8; 32], msg: Message },
    /// The sender's message after the last file
    Closing(Message),
}

/// What the receiver does next.
#[derive(Debug, Clone)]
pub enum ReceiveAction {
    /// Answer `Ready`; then receive file `first`, or wait for completion
    /// when there is none
    Ready { first: Option<usize> },
    /// File `file` checks out: answer with `checksum`; then receive file
    /// `next`, or wait for completion when there is none
    FileDone { file: usize, checksum: [u8; 32], next: Option<usize> },
    /// The transfer is complete; `announced` tells whether the sender's
    /// closing message was `Complete` (anything else is only worth a
    /// warning)
    Done { announced: bool },
    /// Stop with `error`
    Fail { error: Error },
}

/// Where a receive goes once files `done` need nothing more.
pub open spec fn receive_next(file_count: usize, done: Seq<usize>) -> (ReceivePhase, Option<usize>) {
    match first_unlisted(done, file_count as nat) {
        Some(f) => (ReceivePhase::AwaitFile { file: f }, Some(f)),
        None => (ReceivePhase::AwaitComplete, None),
    }
}

/// The sender's completed list as indices.
fn indices_of(v: &Vec<u32>) -> (r: Vec<usize>)
    ensures
        r@.len() == v@.len(),
        forall|k: int| 0 <= k < v@.len() ==> #[trigger] r@[k] == v@[k] as usize,
{
    let mut out: Vec<usize> = Vec::new();
    let mut i: usize = 0;
    while i < v.len()
        invariant
            i <= v@.len(),
            out@.len() == i,
            forall|k: int| 0 <= k < i ==> #[trigger] out@[k] == v@[k] as usize,
        decreases v@.len() - i,
    {
        out.push(v[i] as usize);
        i = i + 1;
    }
    out
}

/// One step of a receive: its new state and what to do. The first message
/// must announce a non-empty transfer; files the sender lists as completed
/// are skipped, the others received in order. A file whose digest differs
/// from the sender's fails the receive (a checksum mismatch is never let
/// through); after the last file the receive finishes, noting whether the
/// sender closed with `Complete`.
pub fn receive_step(s: &FolderReceiveState, ev: ReceiveEvent) -> (r: (FolderReceiveState, ReceiveAction))
    ensures
        r.1 matches ReceiveAction::Ready { first: Some(f) } ==> f < r.0.file_count && !r.0.done@.contains(f),
        r.1 matches ReceiveAction::FileDone { next: Some(g), .. } ==> g < r.0.file_count
            && !r.0.done@.contains(g),
        match (s.phase, ev) {
            (ReceivePhase::Start, ReceiveEvent::Announced(m)) => match m {
                Message::TransferInfo(info) => if info.items@.len() == 0 {
                    &&& r.0.phase == ReceivePhase::Failed
                    &&& r.1 matches ReceiveAction::Fail { error: Error::Protocol(_) }
                } else {
                    &&& r.0.file_count == info.items@.len()
                    &&& r.0.done@.len() == info.completed_files@.len()
                    &&& forall|k: int|
                        0 <= k < info.completed_files@.len() ==> #[trigger] r.0.done@[k]
                            == info.completed_files@[k] as usize
                    &&& r.0.phase == receive_next(r.0.file_count, r.0.done@).0
                    &&& r.1 matches ReceiveAction::Ready { first }
                    &&& first == receive_next(r.0.file_count, r.0.done@).1
                },
                _ => {
                    &&& r.0.phase == ReceivePhase::Failed
                    &&& r.1 matches ReceiveAction::Fail { error: Error::Protocol(_) }
                },
            },
            (ReceivePhase::AwaitFile { file }, ReceiveEvent::FileChecksum { ours, msg }) => if (
            msg matches Message::FileChecksum(m) && m.file_index == file as u32 && m.checksum@
                == ours@) {
                &&& r.0.file_count == s.file_count
                &&& r.0.done@ == s.done@.push(file)
                &&& r.0.phase == receive_next(s.file_count, s.done@.push(file)).0
                &&& r.1 matches ReceiveAction::FileDone { file: f, checksum, next }
                &&& f == file
                &&& checksum == ours
                &&& next == receive_next(s.file_count, s.done@.push(file)).1
            } else {
                &&& r.0.phase == ReceivePhase::Failed
                &&& r.1 matches ReceiveAction::Fail { error }
                &&& (msg matches Message::FileChecksum(m) && m.file_index == file as u32)
                    ==> error is Verification
                &&& !(msg matches Message::FileChecksum(m) && m.file_index == file as u32)
                    ==> error is Protocol
            },
            (ReceivePhase::AwaitComplete, ReceiveEvent::Closing(m)) => r.0.phase
                == ReceivePhase::Finished && r.1 == (ReceiveAction::Done { announced: m is Complete }),
            _ => r.0.phase == ReceivePhase::Failed && r.1 matches ReceiveAction::Fail {
                error: Error::Protocol(_),
            },
        },
{
    let failed = FolderReceiveState { file_count: s.file_count, done: s.done.clone(), phase: ReceivePhase::Failed };
    match (s.phase, ev) {
        (ReceivePhase::Start, ReceiveEvent::Announced(m)) => match expect_transfer_info(m) {
            Err(error) => (failed, ReceiveAction::Fail { error }),
            Ok(info) => {
                let done = indices_of(&info.completed_files);
                let file_count = info.items.len();
                proof {
                    lemma_first_unlisted_is_first(done@, file_count as nat);
                }
                let first = first_unlisted_index(&done, file_count);
                let phase = match first {
                    Some(f) => ReceivePhase::AwaitFile { file: f },
                    None => ReceivePhase::AwaitComplete,
                };
                (FolderReceiveState { file_count, done, phase }, ReceiveAction::Ready { first })
            },
        },
        (ReceivePhase::AwaitFile { file }, ReceiveEvent::FileChecksum { ours, msg }) => {
            match peer_checksum_for(file as u32, &msg) {
                Err(error) => (failed, ReceiveAction::Fail { error }),
                Ok(theirs) => match check_received_checksum(&ours, &theirs) {
                    Err(error) => (failed, ReceiveAction::Fail { error }),
                    Ok(()) => {
                        let mut done = s.done.clone();
                        done.push(file);
                        proof {
                            lemma_first_unlisted_is_first(done@, s.file_count as nat);
                        }
                        let next = first_unlisted_index(&done, s.file_count);
                        let phase = match next {
                            Some(f) => ReceivePhase::AwaitFile { file: f },
                            None => ReceivePhase::AwaitComplete,
                        };
                        (
                            FolderReceiveState { file_count: s.file_count, done, phase },
                            ReceiveAction::FileDone { file, checksum: ours, next },
                        )
                    },
                },
            }
        },
        (ReceivePhase::AwaitComplete, ReceiveEvent::Closing(m)) => {
            let announced = match m {
                Message::Complete(_) => true,
                _ => false,
            };
            (
                FolderReceiveState { file_count: s.file_count, done: s.done.clone(), phase: ReceivePhase::Finished },
                ReceiveAction::Done { announced },
            )
        },
        _ => (failed, ReceiveAction::Fail { error: Error::Protocol("Unexpected event in a folder receive".to_string()) }),
    }
}

} // verus!
