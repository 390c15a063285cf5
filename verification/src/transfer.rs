//! What goes over the wire.
//!
//! The controller is reached through a transport with two channels: one for
//! commands, one for display data. A [`Transfer`] is one write on one of
//! them, and a script, a `Vec<Transfer>`, is what an operation of the driver
//! asks the caller to send, first to last.

use vstd::prelude::*;

verus! {

/// One write on the transport, with the bytes it carries.
#[derive(Clone, Debug, PartialEq, Eq)]
pub enum Transfer {
    /// A write on the command channel.
    Command(Vec<u8>),
    /// A write on the data channel.
    Data(Vec<u8>),
}

/// The mathematical value of a [`Transfer`].
pub enum Frame {
    /// A write on the command channel.
    Command(Seq<u8>),
    /// A write on the data channel.
    Data(Seq<u8>),
}

impl View for Transfer {
    type V = Frame;

    open spec fn view(&self) -> Frame {
        match *self {
            Transfer::Command(bytes) => Frame::Command(bytes@),
            Transfer::Data(bytes) => Frame::Data(bytes@),
        }
    }
}

/// What the sender of a script does next.
#[derive(Clone, Copy, Debug, PartialEq, Eq)]
pub enum Progress<E> {
    /// Perform the step with this index.
    Perform(usize),
    /// Every step was performed, and none failed.
    Done,
    /// A step failed with this error. The steps behind it are not performed.
    Failed(E),
}

/// Decides how the sending of a script goes on.
///
/// The script has `len` steps, of which the first `performed` were
/// performed; `last` is how the last of them ended, or `Ok` where none was
/// performed yet. The steps are performed in order, one at a time. The first
/// failure ends the script, and its error is handed on as it came: nothing is
/// tried again, and nothing already sent is taken back.
pub fn next_step<E>(len: usize, performed: usize, last: Result<(), E>) -> (progress: Progress<E>)
    ensures
        progress == match last {
            Err(error) => Progress::Failed(error),
            Ok(_) => if performed < len {
                Progress::Perform(performed)
            } else {
                Progress::Done
            },
        },
{
    match last {
        Err(error) => Progress::Failed(error),
        Ok(_) => if performed < len {
            Progress::Perform(performed)
        } else {
            Progress::Done
        },
    }
}

/// The frames of a script, in order.
pub open spec fn frames(script: Seq<Transfer>) -> Seq<Frame> {
    Seq::new(script.len(), |i: int| script[i]@)
}

/// The display data that a sequence of frames carries: the payloads of its
/// data frames, joined in order.
pub open spec fn data_bytes(frames: Seq<Frame>) -> Seq<u8>
    decreases frames.len(),
{
    if frames.len() == 0 {
        Seq::empty()
    } else {
        let rest = data_bytes(frames.drop_last());
        match frames.last() {
            Frame::Data(bytes) => rest + bytes,
            Frame::Command(_) => rest,
        }
    }
}

/// The number of command frames in a sequence of frames.
pub open spec fn command_count(frames: Seq<Frame>) -> nat
    decreases frames.len(),
{
    if frames.len() == 0 {
        0
    } else {
        let rest = command_count(frames.drop_last());
        match frames.last() {
            Frame::Data(_) => rest,
            Frame::Command(_) => rest + 1,
        }
    }
}

/// Pushing a transfer onto a script pushes its frame onto the script's frames.
pub proof fn lemma_frames_push(script: Seq<Transfer>, transfer: Transfer)
    ensures
        frames(script.push(transfer)) == frames(script).push(transfer@),
{
    assert(frames(script.push(transfer)) =~= frames(script).push(transfer@));
}

/// The frames of two scripts joined are the frames of each, joined.
pub proof fn lemma_frames_concat(first: Seq<Transfer>, second: Seq<Transfer>)
    ensures
        frames(first + second) == frames(first) + frames(second),
{
    assert(frames(first + second) =~= frames(first) + frames(second));
}

/// The display data of two sequences of frames joined is the data of each,
/// joined.
pub proof fn lemma_data_bytes_concat(first: Seq<Frame>, second: Seq<Frame>)
    ensures
        data_bytes(first + second) == data_bytes(first) + data_bytes(second),
    decreases second.len(),
{
    if second.len() == 0 {
        assert(first + second =~= first);
        assert(data_bytes(first) + data_bytes(second) =~= data_bytes(first));
    } else {
        assert((first + second).drop_last() =~= first + second.drop_last());
        lemma_data_bytes_concat(first, second.drop_last());
        match second.last() {
            Frame::Data(bytes) => {
                assert(data_bytes(first + second) =~= data_bytes(first) + data_bytes(second));
            },
            Frame::Command(_) => {},
        }
    }
}

/// The commands of two sequences of frames joined are as many as those of
/// both.
pub proof fn lemma_command_count_concat(first: Seq<Frame>, second: Seq<Frame>)
    ensures
        command_count(first + second) == command_count(first) + command_count(second),
    decreases second.len(),
{
    if second.len() == 0 {
        assert(first + second =~= first);
    } else {
        assert((first + second).drop_last() =~= first + second.drop_last());
        lemma_command_count_concat(first, second.drop_last());
    }
}

} // verus!
