//! The writer task: commits each block it is handed at the block's position
//! in the target, then gives the buffer back for reuse.

use vstd::prelude::*;
use crate::buffer::Buf;
use crate::error::SyncError;

verus! {

/// What happened to the writer since its last action.
#[derive(Debug)]
pub enum WriterEvent {
    /// A write request arrived: `buf` belongs at `position`.
    Request { position: u64, buf: Buf },
    /// The request channel is closed and empty.
    InboundClosed,
    /// The handle now stands at `position`.
    SeekDone { position: u64, buf: Buf },
    /// The handle could not be moved to `position`.
    SeekFailed { position: u64, buf: Buf },
    /// The write took `written` bytes.
    WriteDone { position: u64, buf: Buf, written: usize },
    /// The write failed.
    WriteFailed { position: u64, buf: Buf },
    /// The buffer is on the return channel.
    Returned,
    /// The return channel has no receiver any more; the buffer is gone.
    ReturnFailed,
}

/// What the writer does next.
#[derive(Debug)]
pub enum WriterAction {
    /// Wait for the next write request.
    Receive,
    /// Move the handle to `position`.
    Seek { position: u64, buf: Buf },
    /// Write the buffer's valid bytes at the handle's place.
    Write { position: u64, buf: Buf },
    /// Put the buffer on the return channel.
    Return(Buf),
    /// No request will come any more: end the task.
    Stop,
    /// End the task with a fatal error; no further request is taken.
    Fail { error: SyncError, buf: Buf },
}

impl WriterEvent {
    /// How many buffers the event hands to the writer.
    pub open spec fn buffers(&self) -> nat {
        match *self {
            WriterEvent::Request { .. }
            | WriterEvent::SeekDone { .. }
            | WriterEvent::SeekFailed { .. }
            | WriterEvent::WriteDone { .. }
            | WriterEvent::WriteFailed { .. } => 1,
            WriterEvent::InboundClosed | WriterEvent::Returned | WriterEvent::ReturnFailed => 0,
        }
    }
}

impl WriterAction {
    /// How many buffers the action hands out of the writer.
    pub open spec fn buffers(&self) -> nat {
        match *self {
            WriterAction::Seek { .. }
            | WriterAction::Write { .. }
            | WriterAction::Return(_)
            | WriterAction::Fail { .. } => 1,
            WriterAction::Receive | WriterAction::Stop => 0,
        }
    }
}

/// The action that answers `event`.
pub open spec fn spec_step(event: WriterEvent) -> WriterAction {
    match event {
        WriterEvent::Request { position, buf } => WriterAction::Seek { position, buf },
        WriterEvent::InboundClosed => WriterAction::Stop,
        WriterEvent::SeekDone { position, buf } => WriterAction::Write { position, buf },
        WriterEvent::SeekFailed { position, buf } => WriterAction::Fail {
            error: SyncError::Seek { position },
            buf,
        },
        WriterEvent::WriteDone { position, buf, written } => if written == buf.length {
            WriterAction::Return(buf)
        } else {
            WriterAction::Fail {
                error: SyncError::ShortWrite { position, expected: buf.length, written },
                buf,
            }
        },
        WriterEvent::WriteFailed { position, buf } => WriterAction::Fail {
            error: SyncError::Write { position },
            buf,
        },
        WriterEvent::Returned => WriterAction::Receive,
        WriterEvent::ReturnFailed => WriterAction::Receive,
    }
}

/// Answers `event` with the next action.
///
/// Each request is a seek to its position, then one write of the buffer's
/// valid bytes. A write that takes any other number of bytes than that is
/// fatal and is not resumed; so are a failed seek and a failed write. After
/// a full write the buffer is returned. If nobody takes it back the writer
/// goes on all the same: requests that are still queued must be written.
/// The writer stops when the request channel has closed and is empty.
/// Whatever buffer the event brings leaves with the action: the writer
/// keeps none and makes none.
pub fn step(event: WriterEvent) -> (action: WriterAction)
    ensures
        action == spec_step(event),
        action.buffers() == event.buffers(),
{
    match event {
        WriterEvent::Request { position, buf } => WriterAction::Seek { position, buf },
        WriterEvent::InboundClosed => WriterAction::Stop,
        WriterEvent::SeekDone { position, buf } => WriterAction::Write { position, buf },
        WriterEvent::SeekFailed { position, buf } => WriterAction::Fail {
            error: SyncError::Seek { position },
            buf,
        },
        WriterEvent::WriteDone { position, buf, written } => {
            if written == buf.length {
                WriterAction::Return(buf)
            } else {
                let expected = buf.length;
                WriterAction::Fail {
                    error: SyncError::ShortWrite { position, expected, written },
                    buf,
                }
            }
        },
        WriterEvent::WriteFailed { position, buf } => WriterAction::Fail {
            error: SyncError::Write { position },
            buf,
        },
        WriterEvent::Returned => WriterAction::Receive,
        WriterEvent::ReturnFailed => WriterAction::Receive,
    }
}

} // verus!
