//! A process session: what the supervisor knows of one child bound to a
//! pseudo-terminal, and what it decides from it.
//!
//! A reader forwards what the child writes as messages on a channel. Once a
//! tick the session drains the channel, up to a cap, and reports the child's
//! exit in-band, once. On teardown it says which steps to take, in order.

use crate::text::{ascii_bytes, ascii_bytes_of, decimal, decimal_string, lemma_decimal_ascii};
use std::sync::mpsc::Receiver;
use vstd::prelude::*;
use vstd::slice::slice_to_vec;

verus! {

/// Bytes after which a drain stops for this tick.
pub const POLL_CAP: usize = 16384;

/// Most bytes that the reader asks for in one read.
pub const READ_CHUNK: usize = 1024;

/// What the reader forwards: one chunk of the child's output, never empty.
#[derive(Debug, PartialEq, Eq)]
pub struct PtyMessage {
    bytes: Vec<u8>,
}

impl View for PtyMessage {
    type V = Seq<u8>;

    closed spec fn view(&self) -> Seq<u8> {
        self.bytes@
    }
}

impl PtyMessage {
    #[verifier::type_invariant]
    spec fn holds_bytes(self) -> bool {
        self.bytes@.len() > 0
    }

    /// The bytes of the chunk.
    pub fn into_bytes(self) -> (r: Vec<u8>)
        ensures
            r@ == self@,
            r@.len() > 0,
    {
        proof {
            use_type_invariant(&self);
        }
        self.bytes
    }
}

/// The message for what one read returned: none at the end of the stream,
/// where the read gave nothing.
pub fn chunk_message(data: &[u8]) -> (r: Option<PtyMessage>)
    ensures
        r is Some <==> data@.len() > 0,
        r matches Some(message) ==> message@ == data@,
{
    if data.len() == 0 {
        None
    } else {
        Some(PtyMessage { bytes: slice_to_vec(data) })
    }
}

/// What one look at the channel gave.
#[derive(Debug, PartialEq, Eq)]
pub enum Received {
    /// A chunk was queued.
    Message(PtyMessage),
    /// Nothing is queued now.
    Empty,
    /// Nothing is queued and the reader is gone.
    Disconnected,
}

impl Received {
    /// The bytes that came, if any.
    pub open spec fn bytes(self) -> Seq<u8> {
        match self {
            Received::Message(m) => m@,
            _ => Seq::empty(),
        }
    }
}

/// The receiving end of a channel of the standard library,
/// `std::sync::mpsc::Receiver`. Nothing inside it is seen here.
#[verifier::external_type_specification]
#[verifier::external_body]
#[verifier::reject_recursive_types(T)]
pub struct ExReceiver<T>(std::sync::mpsc::Receiver<T>);

/// Looks at the channel with `std::sync::mpsc::Receiver::try_recv`, which
/// does not block.
///
/// Not proved, and nothing is claimed of what comes back: it depends on
/// what the reader has sent by now.
#[verifier::external_body]
fn try_receive(receiver: &Receiver<PtyMessage>) -> (r: Received) {
    match receiver.try_recv() {
        Ok(message) => Received::Message(message),
        Err(std::sync::mpsc::TryRecvError::Empty) => Received::Empty,
        Err(std::sync::mpsc::TryRecvError::Disconnected) => Received::Disconnected,
    }
}

/// What is known of the child when it is asked without waiting.
#[derive(Debug, Clone, Copy, PartialEq, Eq)]
pub enum ChildStatus {
    /// It has not exited.
    Running,
    /// It has exited with this code.
    Exited(u32),
    /// Asking failed.
    Unknown,
}

/// The note that tells the operator of an exit, as the pane shows it.
pub open spec fn exit_marker(code: u32) -> Seq<u8> {
    ascii_bytes("[process exited with "@ + decimal(code as nat) + "]"@)
}

/// The bytes of the note for an exit with `code`.
pub fn exit_marker_bytes(code: u32) -> (r: Vec<u8>)
    ensures
        r@ == exit_marker(code),
{
    let mut note = String::from_str("[process exited with ");
    let digits = decimal_string(code as u64);
    note.append(digits.as_str());
    note.append("]");
    proof {
        reveal_strlit("[process exited with ");
        reveal_strlit("]");
        lemma_decimal_ascii(code as nat);
        assert(vstd::utf8::is_ascii_chars(note@));
    }
    ascii_bytes_of(note.as_str())
}

/// Why a session could not be torn down.
#[derive(Debug, Clone, Copy, PartialEq, Eq)]
pub enum SessionError {
    /// Whether the child still runs could not be told.
    StatusUnknown,
}

/// One step of a teardown.
#[derive(Debug, Clone, Copy, PartialEq, Eq)]
pub enum TeardownStep {
    /// Close the writing side of the pseudo-terminal.
    CloseWriter,
    /// Terminate the child by force.
    Kill,
    /// Wait until the child is reaped.
    Wait,
    /// Join the reader.
    JoinReader,
}

/// What to start for a command: a shell on a pseudo-terminal of a size.
#[derive(Debug, Clone, PartialEq, Eq)]
pub struct SpawnRequest {
    pub rows: u16,
    pub cols: u16,
    pub program: String,
    pub args: Vec<String>,
}

/// Mathematical model of a [`SpawnRequest`].
pub struct SpawnRequestView {
    pub rows: int,
    pub cols: int,
    pub program: Seq<char>,
    pub args: Seq<Seq<char>>,
}

impl View for SpawnRequest {
    type V = SpawnRequestView;

    open spec fn view(&self) -> SpawnRequestView {
        SpawnRequestView {
            rows: self.rows as int,
            cols: self.cols as int,
            program: self.program@,
            args: self.args@.map_values(|s: String| s@),
        }
    }
}

/// The request that starts `argv` on a terminal of `dimension`, which is
/// columns and rows: `sh -c argv`, the size cut to 16 bits.
pub open spec fn spawn_request_of(dimension: (usize, usize), argv: Seq<char>) -> SpawnRequestView {
    SpawnRequestView {
        rows: dimension.1 as int % 0x10000,
        cols: dimension.0 as int % 0x10000,
        program: "sh"@,
        args: seq!["-c"@, argv],
    }
}

/// The session of one child.
pub struct PtyProcess {
    /// Where the reader's messages arrive.
    pub receiver: Receiver<PtyMessage>,
    /// The exit code that was last seen, once one was.
    pub exit_status: Option<u32>,
    /// Whether the session was torn down.
    pub closed: bool,
}

impl PtyProcess {
    /// What to start for the command line `argv` on a terminal of
    /// `dimension`.
    pub fn spawn_request(dimension: (usize, usize), argv: &str) -> (r: SpawnRequest)
        ensures
            r@ == spawn_request_of(dimension, argv@),
    {
        let mut args: Vec<String> = Vec::new();
        args.push(String::from_str("-c"));
        args.push(String::from_str(argv));
        let r = SpawnRequest {
            rows: (dimension.1 % 0x10000) as u16,
            cols: (dimension.0 % 0x10000) as u16,
            program: String::from_str("sh"),
            args,
        };
        assert(r@.args == seq!["-c"@, argv@]);
        r
    }

    /// The session of a child that was just started, given the end of the
    /// channel that its reader writes to.
    pub fn new(receiver: Receiver<PtyMessage>) -> (r: PtyProcess)
        ensures
            r.receiver == receiver,
            r.exit_status is None,
            !r.closed,
    {
        PtyProcess { receiver, exit_status: None, closed: false }
    }

    /// Whether a drain goes on after `received` was added to a buffer that
    /// then holds `filled` bytes: while chunks come and the cap is not
    /// passed.
    pub open spec fn drains_on(received: Received, filled: nat) -> bool {
        received is Message && filled <= POLL_CAP
    }

    /// Adds what one look at the channel gave to `buffer`, and tells whether
    /// to look again.
    pub fn absorb(buffer: &mut Vec<u8>, received: Received) -> (more: bool)
        ensures
            final(buffer)@ == old(buffer)@ + received.bytes(),
            more == Self::drains_on(received, final(buffer)@.len()),
            more ==> final(buffer)@.len() > old(buffer)@.len(),
    {
        match received {
            Received::Message(message) => {
                let mut bytes = message.into_bytes();
                buffer.append(&mut bytes);
                buffer.len() <= POLL_CAP
            },
            Received::Empty => {
                assert(buffer@ + Seq::<u8>::empty() == buffer@);
                false
            },
            Received::Disconnected => {
                assert(buffer@ + Seq::<u8>::empty() == buffer@);
                false
            },
        }
    }

    /// What the pane is told when the child is seen in `status` and `seen`
    /// is the exit that was seen before: the note, at the first sight of an
    /// exit, and nothing else.
    pub open spec fn exit_note(seen: Option<u32>, status: ChildStatus) -> Seq<u8> {
        match status {
            ChildStatus::Exited(code) if seen is None => exit_marker(code),
            _ => Seq::empty(),
        }
    }

    /// The exit that is remembered once the child was seen in `status`.
    pub open spec fn exit_seen(seen: Option<u32>, status: ChildStatus) -> Option<u32> {
        match status {
            ChildStatus::Exited(code) if seen is None => Some(code),
            _ => seen,
        }
    }

    /// Takes note of the child's status and returns what the pane is told
    /// of it.
    pub fn observe_exit(&mut self, status: ChildStatus) -> (note: Vec<u8>)
        ensures
            note@ == Self::exit_note(old(self).exit_status, status),
            final(self).exit_status == Self::exit_seen(old(self).exit_status, status),
            final(self).receiver == old(self).receiver,
            final(self).closed == old(self).closed,
    {
        match status {
            ChildStatus::Exited(code) => {
                if self.exit_status.is_none() {
                    self.exit_status = Some(code);
                    exit_marker_bytes(code)
                } else {
                    Vec::new()
                }
            },
            _ => Vec::new(),
        }
    }

    /// Drains what is queued, until nothing is queued or the cap is passed,
    /// and adds the note of the child's exit when it is first seen. What is
    /// left in the queue comes with the next tick.
    pub fn poll(&mut self, status: ChildStatus) -> (buffer: Vec<u8>)
        ensures
            buffer@.len() >= Self::exit_note(old(self).exit_status, status).len(),
            buffer@.skip(buffer@.len() - Self::exit_note(old(self).exit_status, status).len())
                == Self::exit_note(old(self).exit_status, status),
            final(self).exit_status == Self::exit_seen(old(self).exit_status, status),
            final(self).receiver == old(self).receiver,
            final(self).closed == old(self).closed,
    {
        let mut buffer: Vec<u8> = Vec::new();
        let mut more = true;
        while more
            invariant
                more ==> buffer@.len() <= POLL_CAP,
            decreases
                (if more {
                    POLL_CAP + 2 - buffer@.len()
                } else {
                    0
                }),
        {
            let received = try_receive(&self.receiver);
            more = Self::absorb(&mut buffer, received);
        }
        let ghost drained = buffer@;
        let mut note = self.observe_exit(status);
        buffer.append(&mut note);
        assert(buffer@.skip(drained.len() as int) == buffer@.subrange(
            drained.len() as int,
            buffer@.len() as int,
        ));
        buffer
    }

    /// Whether the child has to be terminated by force: not if it has
    /// exited already.
    pub fn kill(&self, status: ChildStatus) -> (r: Result<bool, SessionError>)
        ensures
            r == match status {
                ChildStatus::Running => Ok::<bool, SessionError>(true),
                ChildStatus::Exited(_) => Ok(false),
                ChildStatus::Unknown => Err(SessionError::StatusUnknown),
            },
    {
        match status {
            ChildStatus::Running => Ok(true),
            ChildStatus::Exited(_) => Ok(false),
            ChildStatus::Unknown => Err(SessionError::StatusUnknown),
        }
    }

    /// The steps that tear down a session whose child is in `status`.
    pub open spec fn teardown_steps(status: ChildStatus) -> Seq<TeardownStep> {
        if status is Running {
            seq![
                TeardownStep::CloseWriter,
                TeardownStep::Kill,
                TeardownStep::Wait,
                TeardownStep::JoinReader,
            ]
        } else {
            seq![TeardownStep::CloseWriter, TeardownStep::Wait, TeardownStep::JoinReader]
        }
    }

    /// Tears the session down: returns the steps to take, in order, and
    /// marks the session closed. On a closed session there is nothing to
    /// do. Where the child's status is unknown the session stays as it is.
    pub fn close(&mut self, status: ChildStatus) -> (r: Result<Vec<TeardownStep>, SessionError>)
        ensures
            old(self).closed ==> r is Ok && r->Ok_0@ == Seq::<TeardownStep>::empty() && *final(self)
                == *old(self),
            !old(self).closed && status is Unknown ==> r == Err::<Vec<TeardownStep>, SessionError>(
                SessionError::StatusUnknown,
            ) && *final(self) == *old(self),
            !old(self).closed && !(status is Unknown) ==> r is Ok && r->Ok_0@
                == Self::teardown_steps(status) && final(self).closed && final(self).exit_status
                == old(self).exit_status && final(self).receiver == old(self).receiver,
    {
        let mut steps: Vec<TeardownStep> = Vec::new();
        if self.closed {
            return Ok(steps);
        }
        match self.kill(status) {
            Err(e) => Err(e),
            Ok(force) => {
                steps.push(TeardownStep::CloseWriter);
                if force {
                    steps.push(TeardownStep::Kill);
                }
                steps.push(TeardownStep::Wait);
                steps.push(TeardownStep::JoinReader);
                self.closed = true;
                assert(steps@ == Self::teardown_steps(status));
                Ok(steps)
            },
        }
    }

    /// The exit that is remembered after polls that saw the child in
    /// `statuses`, one after the other.
    pub open spec fn seen_after(seen: Option<u32>, statuses: Seq<ChildStatus>) -> Option<u32>
        decreases statuses.len(),
    {
        if statuses.len() == 0 {
            seen
        } else {
            Self::exit_seen(Self::seen_after(seen, statuses.drop_last()), statuses.last())
        }
    }

    /// What poll `k` of a run of polls tells the pane of the child's exit.
    pub open spec fn note_at(seen: Option<u32>, statuses: Seq<ChildStatus>, k: int) -> Seq<u8> {
        Self::exit_note(Self::seen_after(seen, statuses.take(k)), statuses[k])
    }

    /// The note of an exit is never empty.
    pub proof fn lemma_exit_marker_len(code: u32)
        ensures
            exit_marker(code).len() > 0,
    {
        reveal_strlit("]");
    }

    /// An exit that was seen stays seen.
    pub proof fn lemma_seen_stays(seen: Option<u32>, statuses: Seq<ChildStatus>, i: int, j: int)
        requires
            0 <= i <= j <= statuses.len(),
            Self::seen_after(seen, statuses.take(i)) is Some,
        ensures
            Self::seen_after(seen, statuses.take(j)) is Some,
        decreases j - i,
    {
        if i < j {
            Self::lemma_seen_stays(seen, statuses, i, j - 1);
            assert(statuses.take(j).drop_last() == statuses.take(j - 1));
        }
    }

    /// Of any two polls of one session, at most one tells of the exit.
    pub proof fn lemma_exit_noted_once(seen: Option<u32>, statuses: Seq<ChildStatus>, i: int, j: int)
        requires
            0 <= i < j < statuses.len(),
        ensures
            Self::note_at(seen, statuses, i).len() == 0 || Self::note_at(seen, statuses, j).len()
                == 0,
    {
        if Self::note_at(seen, statuses, i).len() > 0 {
            assert(statuses.take(i + 1).drop_last() == statuses.take(i));
            assert(statuses.take(i + 1).last() == statuses[i]);
            assert(Self::seen_after(seen, statuses.take(i + 1)) is Some);
            Self::lemma_seen_stays(seen, statuses, i + 1, j);
        }
    }

    /// Where the child has exited with `code` before the first of a run of
    /// polls of a session that has not seen an exit, the first poll tells
    /// of the exit and no later one does.
    pub proof fn lemma_exit_noted_first(statuses: Seq<ChildStatus>, code: u32, k: int)
        requires
            0 <= k < statuses.len(),
            forall|i: int| 0 <= i < statuses.len() ==> statuses[i] == ChildStatus::Exited(code),
        ensures
            Self::note_at(None, statuses, 0) == exit_marker(code),
            k > 0 ==> Self::note_at(None, statuses, k) == Seq::<u8>::empty(),
    {
        assert(statuses.take(0).len() == 0);
        Self::lemma_exit_marker_len(code);
        if k > 0 {
            Self::lemma_exit_noted_once(None, statuses, 0, k);
        }
    }
}

} // verus!
