//! Finding the byte length of a handle: which size query fits which kind of
//! handle. The queries themselves belong to the operating system.

use vstd::prelude::*;
use crate::error::SyncError;

verus! {

/// What the caller has learnt about the handle.
#[derive(Clone, Copy, Debug, PartialEq, Eq, Structural)]
pub enum ProbeEvent {
    /// The handle's metadata: what kind of object it is, and the length
    /// that the metadata records.
    Metadata { is_file: bool, is_block_device: bool, len: u64 },
    /// The answer of the block-device size query.
    DeviceSize(u64),
}

/// What to do next to learn the size.
#[derive(Clone, Copy, Debug, PartialEq, Eq, Structural)]
pub enum ProbeAction {
    /// Ask the device for its size.
    QueryDevice,
    /// The size is known.
    Done(u64),
    /// The handle has no size that this crate can use.
    Fail(SyncError),
}

/// The action that answers `event`.
pub open spec fn spec_step(event: ProbeEvent) -> ProbeAction {
    match event {
        ProbeEvent::Metadata { is_file, is_block_device, len } => if is_file {
            ProbeAction::Done(len)
        } else if is_block_device {
            ProbeAction::QueryDevice
        } else {
            ProbeAction::Fail(SyncError::UnsupportedFileType)
        },
        ProbeEvent::DeviceSize(size) => ProbeAction::Done(size),
    }
}

/// Answers `event` with the next action.
///
/// A regular file has the length its metadata records. A block device is
/// asked for its size, and has the size it answers. Anything else is
/// unsupported.
pub fn step(event: ProbeEvent) -> (action: ProbeAction)
    ensures
        action == spec_step(event),
{
    match event {
        ProbeEvent::Metadata { is_file, is_block_device, len } => {
            if is_file {
                ProbeAction::Done(len)
            } else if is_block_device {
                ProbeAction::QueryDevice
            } else {
                ProbeAction::Fail(SyncError::UnsupportedFileType)
            }
        },
        ProbeEvent::DeviceSize(size) => ProbeAction::Done(size),
    }
}

} // verus!
