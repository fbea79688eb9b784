//! Line reading for `@read`: splitting buffered input into lines, and the decisions of
//! the read loop that fills the buffer from a descriptor, parking on readiness.

use vstd::prelude::*;
use crate::runtime::io::IoErrorKind;

verus! {

broadcast use vstd::std_specs::vec::group_vec_axioms;

/// The position of the first newline of `s`, if it holds one.
pub open spec fn first_newline(s: Seq<u8>) -> Option<int>
    decreases s.len(),
{
    if s.len() == 0 {
        None
    } else if s[0] == 10u8 {
        Some(0)
    } else {
        match first_newline(s.drop_first()) {
            Some(i) => Some(i + 1),
            None => None,
        }
    }
}

/// What `first_newline` says about the bytes.
pub proof fn lemma_first_newline(s: Seq<u8>)
    ensures
        match first_newline(s) {
            Some(p) => 0 <= p < s.len() && s[p] == 10u8 && forall|j: int|
                0 <= j < p ==> s[j] != 10u8,
            None => forall|j: int| 0 <= j < s.len() ==> s[j] != 10u8,
        },
    decreases s.len(),
{
    if s.len() > 0 {
        lemma_first_newline(s.drop_first());
        assert forall|j: int| 1 <= j < s.len() implies s[j] == s.drop_first()[j - 1] by {}
    }
}

/// A line without its terminator: a `\r` before the newline is dropped too.
pub open spec fn strip_cr(line: Seq<u8>) -> Seq<u8> {
    if line.len() > 0 && line.last() == 13u8 {
        line.drop_last()
    } else {
        line
    }
}

/// If `buffer` holds a complete line (up to and including a `\n`), remove and return it
/// without the newline (and without a preceding `\r`); otherwise `None`, leaving the
/// buffer as it was. Bytes past the newline stay in the buffer.
pub fn take_line(buffer: &mut Vec<u8>) -> (r: Option<Vec<u8>>)
    ensures
        match first_newline(old(buffer)@) {
            Some(p) => r matches Some(line) && line@ == strip_cr(old(buffer)@.take(p))
                && final(buffer)@ == old(buffer)@.skip(p + 1),
            None => r is None && final(buffer)@ == old(buffer)@,
        },
{
    proof {
        lemma_first_newline(buffer@);
    }
    let mut p: usize = 0;
    while p < buffer.len()
        invariant
            p <= buffer@.len(),
            buffer@ == old(buffer)@,
            forall|j: int| 0 <= j < p ==> buffer@[j] != 10u8,
        ensures
            p <= buffer@.len(),
            buffer@ == old(buffer)@,
            forall|j: int| 0 <= j < p ==> buffer@[j] != 10u8,
            p < buffer@.len() ==> buffer@[p as int] == 10u8,
        decreases buffer@.len() - p,
    {
        if buffer[p] == 10u8 {
            break;
        }
        p += 1;
    }
    if p == buffer.len() {
        return None;
    }
    proof {
        match first_newline(buffer@) {
            Some(q) => {
                assert(q == p as int);
            },
            None => {},
        }
    }
    let mut rest = buffer.split_off(p + 1);
    std::mem::swap(buffer, &mut rest);
    let mut line = rest;
    line.pop();
    assert(line@ =~= old(buffer)@.take(p as int));
    if line.len() > 0 && line[line.len() - 1] == 13u8 {
        line.pop();
    }
    Some(line)
}

/// What a read of the descriptor reported.
#[derive(Debug)]
pub enum ReadEvent {
    /// Bytes arrived.
    Data(Vec<u8>),
    /// The stream ended.
    Eof,
    /// The read failed with this kind of error.
    Failed(IoErrorKind),
}

/// What the read loop does next.
#[derive(Debug)]
pub enum ReadAction {
    /// A line is complete: hand it back.
    Line(Vec<u8>),
    /// Read again at once.
    ReadAgain,
    /// Register the descriptor for read readiness (its first wait), park until ready,
    /// then read again.
    RegisterAndPark,
    /// Re-arm the existing registration, park until ready, then read again.
    RearmAndPark,
    /// Give up with this error.
    Fail(IoErrorKind),
}

/// The mathematical value of a [`ReadAction`].
pub enum ReadActionModel {
    Line(Seq<u8>),
    ReadAgain,
    RegisterAndPark,
    RearmAndPark,
    Fail(IoErrorKind),
}

impl View for ReadAction {
    type V = ReadActionModel;

    open spec fn view(&self) -> ReadActionModel {
        match self {
            ReadAction::Line(l) => ReadActionModel::Line(l@),
            ReadAction::ReadAgain => ReadActionModel::ReadAgain,
            ReadAction::RegisterAndPark => ReadActionModel::RegisterAndPark,
            ReadAction::RearmAndPark => ReadActionModel::RearmAndPark,
            ReadAction::Fail(k) => ReadActionModel::Fail(*k),
        }
    }
}

/// The mathematical value of a [`ReadEvent`].
pub enum ReadEventModel {
    Data(Seq<u8>),
    Eof,
    Failed(IoErrorKind),
}

impl View for ReadEvent {
    type V = ReadEventModel;

    open spec fn view(&self) -> ReadEventModel {
        match self {
            ReadEvent::Data(d) => ReadEventModel::Data(d@),
            ReadEvent::Eof => ReadEventModel::Eof,
            ReadEvent::Failed(k) => ReadEventModel::Failed(*k),
        }
    }
}

/// One step of reading a line: the buffer before and after, and the action, given what
/// the read reported and whether the descriptor is already registered with the reactor.
/// Arriving bytes are appended and a completed line is taken; at end of input whatever
/// is buffered (an unterminated last line, or nothing) is the line; a read that would
/// block parks on readiness (registering lazily, on the first wait); an interrupted read
/// is retried; any other error ends the read.
pub open spec fn read_step(buffer: Seq<u8>, event: ReadEventModel, registered: bool) -> (
    Seq<u8>,
    ReadActionModel,
) {
    match event {
        ReadEventModel::Data(d) => {
            let all = buffer + d;
            match first_newline(all) {
                Some(p) => (all.skip(p + 1), ReadActionModel::Line(strip_cr(all.take(p)))),
                None => (all, ReadActionModel::ReadAgain),
            }
        },
        ReadEventModel::Eof => (Seq::empty(), ReadActionModel::Line(buffer)),
        ReadEventModel::Failed(kind) => match kind {
            IoErrorKind::WouldBlock => (
                buffer,
                if registered {
                    ReadActionModel::RearmAndPark
                } else {
                    ReadActionModel::RegisterAndPark
                },
            ),
            IoErrorKind::Interrupted => (buffer, ReadActionModel::ReadAgain),
            _ => (buffer, ReadActionModel::Fail(kind)),
        },
    }
}

/// Decide the read loop's next move after a read reported `event`.
pub fn line_step(buffer: &mut Vec<u8>, event: ReadEvent, registered: bool) -> (r: ReadAction)
    ensures
        (final(buffer)@, r@) == read_step(old(buffer)@, event@, registered),
{
    match event {
        ReadEvent::Data(mut d) => {
            buffer.append(&mut d);
            match take_line(buffer) {
                Some(line) => ReadAction::Line(line),
                None => ReadAction::ReadAgain,
            }
        },
        ReadEvent::Eof => {
            let mut line = Vec::new();
            std::mem::swap(buffer, &mut line);
            ReadAction::Line(line)
        },
        ReadEvent::Failed(kind) => match kind {
            IoErrorKind::WouldBlock => {
                if registered {
                    ReadAction::RearmAndPark
                } else {
                    ReadAction::RegisterAndPark
                }
            },
            IoErrorKind::Interrupted => ReadAction::ReadAgain,
            _ => ReadAction::Fail(kind),
        },
    }
}

/// A line taken from the buffer, with the newline it ended at (and the `\r` before it,
/// if any), gives back exactly the bytes that were buffered.
pub proof fn law_take_line_loses_nothing(buffer: Seq<u8>)
    requires
        first_newline(buffer) is Some,
    ensures
        ({
            let p = first_newline(buffer)->Some_0;
            let line = strip_cr(buffer.take(p));
            let rest = buffer.skip(p + 1);
            buffer == (if line.len() < p {
                line + seq![13u8, 10u8]
            } else {
                line + seq![10u8]
            }) + rest
        }),
{
    lemma_first_newline(buffer);
    let p = first_newline(buffer)->Some_0;
    let head = buffer.take(p);
    let line = strip_cr(head);
    let rest = buffer.skip(p + 1);
    if line.len() < p {
        assert(head =~= line.push(13u8));
        assert(buffer =~= line + seq![13u8, 10u8] + rest);
    } else {
        assert(buffer =~= line + seq![10u8] + rest);
    }
}

/// A taken line holds no newline.
pub proof fn law_taken_line_has_no_newline(buffer: Seq<u8>)
    requires
        first_newline(buffer) is Some,
    ensures
        forall|j: int|
            0 <= j < strip_cr(buffer.take(first_newline(buffer)->Some_0)).len() ==> strip_cr(
                buffer.take(first_newline(buffer)->Some_0),
            )[j] != 10u8,
{
    lemma_first_newline(buffer);
}

} // verus!
