//! A reader task: takes empty buffers, fills each with one sequential read,
//! and hands it on. The source and the target stream each have one.

use vstd::prelude::*;
use crate::buffer::Buf;
use crate::error::SyncError;

verus! {

/// What happened to the reader since its last action.
#[derive(Debug)]
pub enum ReaderEvent {
    /// A buffer arrived on the inbound channel.
    Received(Buf),
    /// The inbound channel is closed and empty.
    InboundClosed,
    /// The read put `count` bytes at the start of the buffer's storage.
    ReadDone { buf: Buf, count: usize },
    /// The read failed.
    ReadFailed(Buf),
    /// The filled buffer is on the outbound channel.
    Sent,
    /// The outbound channel has no receiver any more.
    SendFailed,
}

/// What the reader does next.
#[derive(Debug)]
pub enum ReaderAction {
    /// Wait for a buffer on the inbound channel.
    Receive,
    /// Read once from the handle's cursor into the buffer's storage.
    Read(Buf),
    /// Put the filled buffer on the outbound channel.
    Send(Buf),
    /// The stream has ended: end the task, and do not send the buffer.
    EndOfStream(Buf),
    /// Nobody is left to work for: end the task.
    Stop,
    /// End the task with a fatal error.
    Fail { error: SyncError, buf: Buf },
}

impl ReaderEvent {
    /// How many buffers the event hands to the reader.
    pub open spec fn buffers(&self) -> nat {
        match *self {
            ReaderEvent::Received(_) | ReaderEvent::ReadDone { .. } | ReaderEvent::ReadFailed(_) => 1,
            ReaderEvent::InboundClosed | ReaderEvent::Sent | ReaderEvent::SendFailed => 0,
        }
    }
}

impl ReaderAction {
    /// How many buffers the action hands out of the reader.
    pub open spec fn buffers(&self) -> nat {
        match *self {
            ReaderAction::Read(_)
            | ReaderAction::Send(_)
            | ReaderAction::EndOfStream(_)
            | ReaderAction::Fail { .. } => 1,
            ReaderAction::Receive | ReaderAction::Stop => 0,
        }
    }
}

/// The state of a reader: how far into its stream it has read. The reader
/// never seeks, so this is also the handle's cursor.
#[derive(Clone, Copy, Debug, PartialEq, Eq, Structural)]
pub struct Reader {
    pub cursor: u64,
}

impl Reader {
    /// Whether the reader can take `event`: a read reports no more bytes
    /// than the buffer has room for, and the cursor stays a `u64`.
    pub open spec fn accepts(self, event: ReaderEvent) -> bool {
        event matches ReaderEvent::ReadDone { buf, count } ==> {
            &&& count <= buf.data.len()
            &&& self.cursor + count <= u64::MAX
        }
    }

    /// The state after `event`, and the action that answers it.
    pub open spec fn spec_step(self, event: ReaderEvent) -> (Reader, ReaderAction) {
        match event {
            ReaderEvent::Received(buf) => (self, ReaderAction::Read(buf)),
            ReaderEvent::InboundClosed => (self, ReaderAction::Stop),
            ReaderEvent::ReadDone { buf, count } => {
                let filled = Buf { length: count, data: buf.data };
                if count == 0 {
                    (self, ReaderAction::EndOfStream(filled))
                } else {
                    (Reader { cursor: (self.cursor + count) as u64 }, ReaderAction::Send(filled))
                }
            },
            ReaderEvent::ReadFailed(buf) => (
                self,
                ReaderAction::Fail { error: SyncError::Read { offset: self.cursor }, buf },
            ),
            ReaderEvent::Sent => (self, ReaderAction::Receive),
            ReaderEvent::SendFailed => (self, ReaderAction::Stop),
        }
    }

    /// A reader at the start of its stream.
    pub fn new() -> (reader: Reader)
        ensures
            reader.cursor == 0,
    {
        Reader { cursor: 0 }
    }

    /// Answers `event` with the next action.
    ///
    /// A buffer that arrives is read into. A read of at least one byte makes
    /// those bytes the buffer's valid ones and sends it on; a read of nothing
    /// is the end of the stream; a failed read is fatal and names the offset
    /// it stood at. After a send the reader waits for the next buffer, and it
    /// stops without an error when either channel has closed. Whatever
    /// buffer the event brings leaves with the action: the reader keeps
    /// none and makes none.
    pub fn step(&mut self, event: ReaderEvent) -> (action: ReaderAction)
        requires
            old(self).accepts(event),
        ensures
            (*final(self), action) == old(self).spec_step(event),
            action.buffers() == event.buffers(),
            action matches ReaderAction::Send(buf) ==> buf.wf() && buf.length > 0,
            action matches ReaderAction::EndOfStream(buf) ==> buf.wf() && buf.length == 0,
    {
        match event {
            ReaderEvent::Received(buf) => ReaderAction::Read(buf),
            ReaderEvent::InboundClosed => ReaderAction::Stop,
            ReaderEvent::ReadDone { buf, count } => {
                let filled = Buf { length: count, data: buf.data };
                if count == 0 {
                    ReaderAction::EndOfStream(filled)
                } else {
                    self.cursor = self.cursor + count as u64;
                    ReaderAction::Send(filled)
                }
            },
            ReaderEvent::ReadFailed(buf) => ReaderAction::Fail {
                error: SyncError::Read { offset: self.cursor },
                buf,
            },
            ReaderEvent::Sent => ReaderAction::Receive,
            ReaderEvent::SendFailed => ReaderAction::Stop,
        }
    }
}

} // verus!
