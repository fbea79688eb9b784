//! The decisions of non-blocking socket I/O on the fiber scheduler: when an operation
//! is retried, parked on readiness, or given up; how a partial write advances; and when
//! a non-blocking connect has completed.

use vstd::prelude::*;

verus! {

/// The kinds of I/O error the runtime tells apart.
#[derive(Debug, Clone, Copy, PartialEq, Eq, Structural)]
pub enum IoErrorKind {
    /// The operation would block: wait for readiness and try again.
    WouldBlock,
    /// A signal interrupted the call: try again at once.
    Interrupted,
    /// The socket is not connected (yet).
    NotConnected,
    /// A write accepted zero bytes.
    WriteZero,
    /// Any other failure.
    Other,
}

/// Whether an error means "would block".
pub fn would_block(kind: IoErrorKind) -> (r: bool)
    ensures
        r == (kind == IoErrorKind::WouldBlock),
{
    kind == IoErrorKind::WouldBlock
}

/// What a non-blocking operation's retry loop does after the operation failed.
#[derive(Debug, Clone, Copy, PartialEq, Eq, Structural)]
pub enum RetryAction {
    /// Run the operation again at once.
    Retry,
    /// Re-arm the source's readiness registration, park the fiber until it is ready,
    /// then run the operation again.
    ParkThenRetry,
    /// Return the error.
    Fail,
}

/// The retry decision for a failed non-blocking operation.
pub open spec fn retry_after(kind: IoErrorKind) -> RetryAction {
    match kind {
        IoErrorKind::Interrupted => RetryAction::Retry,
        IoErrorKind::WouldBlock => RetryAction::ParkThenRetry,
        _ => RetryAction::Fail,
    }
}

/// Retry a non-blocking operation after a failure of kind `kind`: an interrupted call is
/// retried, one that would block parks the fiber on readiness first (re-arming before
/// every park so an edge-triggered poll loses no wakeup), anything else is returned.
pub fn retry_action(kind: IoErrorKind) -> (r: RetryAction)
    ensures
        r == retry_after(kind),
{
    match kind {
        IoErrorKind::Interrupted => RetryAction::Retry,
        IoErrorKind::WouldBlock => RetryAction::ParkThenRetry,
        _ => RetryAction::Fail,
    }
}

/// Progress of writing a whole buffer through partial writes.
#[derive(Debug, Clone, Copy, PartialEq, Eq, Structural)]
pub struct WriteAll {
    /// The buffer's length.
    pub len: usize,
    /// How many leading bytes have been written.
    pub written: usize,
}

/// What happens after one write of a `write_all`.
#[derive(Debug, Clone, Copy, PartialEq, Eq, Structural)]
pub enum WriteOutcome {
    /// More bytes remain: write again from `written`.
    Continue,
    /// The whole buffer is written.
    Done,
    /// Stop with this error (`WriteZero` when a write accepted nothing).
    Failed(IoErrorKind),
}

impl WriteAll {
    /// Start writing a buffer of `len` bytes.
    pub fn new(len: usize) -> (r: WriteAll)
        ensures
            r.len == len,
            r.written == 0,
    {
        WriteAll { len, written: 0 }
    }

    /// Whether nothing remains to be written.
    pub fn finished(&self) -> (r: bool)
        ensures
            r == (self.written >= self.len),
    {
        self.written >= self.len
    }

    /// Record the result of one write of the remaining bytes: `Ok(n)` for `n` bytes
    /// accepted (a socket write accepts at most what it was offered). Zero bytes accepted
    /// is an error (`WriteZero`); a failed write ends the loop with its error.
    pub fn on_write(&mut self, result: Result<usize, IoErrorKind>) -> (r: WriteOutcome)
        requires
            old(self).written < old(self).len,
            result matches Ok(n) ==> n <= old(self).len - old(self).written,
        ensures
            final(self).len == old(self).len,
            match result {
                Ok(0) => r == WriteOutcome::Failed(IoErrorKind::WriteZero) && *final(self)
                    == *old(self),
                Ok(n) => final(self).written == old(self).written + n && (final(self).written
                    == final(self).len ==> r == WriteOutcome::Done) && (final(self).written
                    != final(self).len ==> r == WriteOutcome::Continue),
                Err(k) => r == WriteOutcome::Failed(k) && *final(self) == *old(self),
            },
    {
        match result {
            Ok(0) => WriteOutcome::Failed(IoErrorKind::WriteZero),
            Ok(n) => {
                self.written = self.written + n;
                if self.written == self.len {
                    WriteOutcome::Done
                } else {
                    WriteOutcome::Continue
                }
            },
            Err(k) => WriteOutcome::Failed(k),
        }
    }
}

/// Where a non-blocking connect stands after the fiber was woken.
#[derive(Debug, Clone, Copy, PartialEq, Eq, Structural)]
pub enum ConnectAction {
    /// The handshake completed.
    Connected,
    /// Not finished yet (a spurious wakeup): re-arm write interest and park again.
    ParkAgain,
    /// The connect failed with this error.
    Fail(IoErrorKind),
}

/// The decision after a wakeup of a connecting socket: a pending socket error fails the
/// connect; otherwise a known peer address means the handshake is done; a not-connected
/// or would-block answer means it is still in progress; any other error fails.
pub open spec fn connect_decision(pending: Option<IoErrorKind>, peer: Result<(), IoErrorKind>) -> ConnectAction {
    match pending {
        Some(e) => ConnectAction::Fail(e),
        None => match peer {
            Ok(()) => ConnectAction::Connected,
            Err(k) => if k == IoErrorKind::NotConnected || k == IoErrorKind::WouldBlock {
                ConnectAction::ParkAgain
            } else {
                ConnectAction::Fail(k)
            },
        },
    }
}

/// Decide how a non-blocking connect continues after its fiber was woken by write
/// readiness: `pending` is the socket's pending error (`SO_ERROR`), `peer` whether the
/// peer address is known. A spurious writable wakeup before completion re-parks, never
/// spins.
pub fn connect_step(pending: Option<IoErrorKind>, peer: Result<(), IoErrorKind>) -> (r:
    ConnectAction)
    ensures
        r == connect_decision(pending, peer),
{
    match pending {
        Some(e) => ConnectAction::Fail(e),
        None => match peer {
            Ok(()) => ConnectAction::Connected,
            Err(k) => {
                if k == IoErrorKind::NotConnected || k == IoErrorKind::WouldBlock {
                    ConnectAction::ParkAgain
                } else {
                    ConnectAction::Fail(k)
                }
            },
        },
    }
}

} // verus!
