//! The fatal conditions that end a synchronisation run.

use vstd::prelude::*;

verus! {

/// A fatal error. None of these is retried: the task that meets one stops,
/// and the run ends with it.
///
/// Streams of different lengths are not an error; they end the comparison
/// in the ordinary way.
#[derive(Clone, Copy, Debug, PartialEq, Eq, Structural)]
pub enum SyncError {
    /// The handle is neither a regular file nor a block device.
    UnsupportedFileType,
    /// A read failed after `offset` bytes had been read from the stream.
    Read { offset: u64 },
    /// The writer could not move to `position`.
    Seek { position: u64 },
    /// A write at `position` took only `written` of `expected` bytes.
    ShortWrite { position: u64, expected: usize, written: usize },
    /// A write at `position` failed.
    Write { position: u64 },
}

/// Exit code of a run that ended on a failed read, seek or write.
pub const EXIT_IO_FAILURE: u8 = 1;

/// Exit code of a run that was given a handle of an unsupported kind.
pub const EXIT_UNSUPPORTED: u8 = 2;

/// Exit code of a run that ended on a short write.
pub const EXIT_SHORT_WRITE: u8 = 3;

impl SyncError {
    /// The process exit code for this error: one code for each of I/O
    /// failure, unsupported handle and short write, none of them zero.
    pub open spec fn spec_exit_code(&self) -> u8 {
        match *self {
            SyncError::UnsupportedFileType => EXIT_UNSUPPORTED,
            SyncError::ShortWrite { .. } => EXIT_SHORT_WRITE,
            SyncError::Read { .. } | SyncError::Seek { .. } | SyncError::Write { .. } =>
                EXIT_IO_FAILURE,
        }
    }

    /// The byte offset in the stream at which the failing operation stood,
    /// where there is one.
    pub open spec fn spec_offset(&self) -> Option<u64> {
        match *self {
            SyncError::UnsupportedFileType => None,
            SyncError::Read { offset } => Some(offset),
            SyncError::Seek { position } => Some(position),
            SyncError::ShortWrite { position, .. } => Some(position),
            SyncError::Write { position } => Some(position),
        }
    }

    #[verifier::when_used_as_spec(spec_exit_code)]
    pub fn exit_code(&self) -> (code: u8)
        ensures
            code == self.spec_exit_code(),
            code != 0,
    {
        match self {
            SyncError::UnsupportedFileType => EXIT_UNSUPPORTED,
            SyncError::ShortWrite { .. } => EXIT_SHORT_WRITE,
            SyncError::Read { .. } => EXIT_IO_FAILURE,
            SyncError::Seek { .. } => EXIT_IO_FAILURE,
            SyncError::Write { .. } => EXIT_IO_FAILURE,
        }
    }

    #[verifier::when_used_as_spec(spec_offset)]
    pub fn offset(&self) -> (at: Option<u64>)
        ensures
            at == self.spec_offset(),
    {
        match self {
            SyncError::UnsupportedFileType => None,
            SyncError::Read { offset } => Some(*offset),
            SyncError::Seek { position } => Some(*position),
            SyncError::ShortWrite { position, .. } => Some(*position),
            SyncError::Write { position } => Some(*position),
        }
    }

    /// The name of the operation that failed.
    pub fn operation(&self) -> (name: &'static str)
        ensures
            name@ == match *self {
                SyncError::UnsupportedFileType => "size query"@,
                SyncError::Read { .. } => "read"@,
                SyncError::Seek { .. } => "seek"@,
                SyncError::ShortWrite { .. } => "short write"@,
                SyncError::Write { .. } => "write"@,
            },
    {
        match self {
            SyncError::UnsupportedFileType => "size query",
            SyncError::Read { .. } => "read",
            SyncError::Seek { .. } => "seek",
            SyncError::ShortWrite { .. } => "short write",
            SyncError::Write { .. } => "write",
        }
    }
}

} // verus!
