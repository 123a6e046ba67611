//! The comparison loop: pairs one block of each stream, decides what becomes
//! of the two buffers, and keeps the byte position and the counters.

use vstd::prelude::*;
use crate::buffer::Buf;
use crate::error::SyncError;

verus! {

/// The block size of a run that is not told another.
pub const DEFAULT_BLOCK_SIZE: usize = 4096 * 8;

/// The channel capacity of a run that is not told another.
pub const DEFAULT_CHANNEL_CAPACITY: usize = 16;

/// Where the orchestrator stands in a run.
#[derive(Clone, Copy, Debug, PartialEq, Eq, Structural)]
pub enum Phase {
    /// Nothing has been handed to the readers yet.
    Prime,
    /// Pairs of blocks are being compared.
    Running,
    /// The streams have ended; the tasks are being waited for.
    Draining,
    /// The counts have been reported.
    Done,
}

/// The counts of a finished run.
#[derive(Clone, Copy, Debug, PartialEq, Eq, Structural)]
pub struct Report {
    /// Blocks compared.
    pub total_count: u64,
    /// Blocks that differed and were handed to the writer.
    pub diff_count: u64,
    /// Bytes compared.
    pub bytes: u64,
}

/// What becomes of a pair of buffers.
#[derive(Debug)]
pub enum Decision {
    /// The blocks are equal: each buffer goes back to its own reader.
    Recycle { source: Buf, target: Buf },
    /// The blocks differ: the source buffer goes to the writer, to be written
    /// at `position`, and the target buffer goes back to the target reader.
    Rewrite { position: u64, source: Buf, target: Buf },
    /// A stream has ended: no more work is issued. The buffers that arrived
    /// with the last pair leave circulation.
    Drain { last_source: Option<Buf>, last_target: Option<Buf> },
}

impl Decision {
    /// How many buffers the decision hands on.
    pub open spec fn buffers(&self) -> nat {
        match *self {
            Decision::Recycle { .. } | Decision::Rewrite { .. } => 2,
            Decision::Drain { last_source, last_target } => arrived(last_source) + arrived(
                last_target,
            ),
        }
    }

    /// By how many bytes the decision moved the position.
    pub open spec fn spec_progress(&self) -> usize {
        match *self {
            Decision::Recycle { source, .. } | Decision::Rewrite { source, .. } => source.length,
            Decision::Drain { .. } => 0,
        }
    }

    /// By how many bytes the decision moved the position: the length of
    /// the pair's blocks if the pair was compared, nothing if it ended the
    /// streams.
    #[verifier::when_used_as_spec(spec_progress)]
    pub fn progress(&self) -> (bytes: usize)
        ensures
            bytes == self.spec_progress(),
    {
        match self {
            Decision::Recycle { source, .. } => source.length,
            Decision::Rewrite { source, .. } => source.length,
            Decision::Drain { .. } => 0,
        }
    }
}

/// How many buffers an arrival brings: one, or none where the stream's
/// reader has gone.
pub open spec fn arrived(arrival: Option<Buf>) -> nat {
    if arrival is Some {
        1
    } else {
        0
    }
}

/// The state of the comparison loop.
#[derive(Debug)]
pub struct Orchestrator {
    pub phase: Phase,
    /// Capacity of every buffer.
    pub block_size: usize,
    /// Capacity of every channel.
    pub channel_capacity: usize,
    /// Byte offset of the next pair in both streams.
    pub position: u64,
    /// Blocks compared so far.
    pub total_count: u64,
    /// Blocks handed to the writer so far.
    pub diff_count: u64,
}

/// Whether a pair of arrivals ends the comparison: a stream that delivers
/// nothing more, an empty block, or two blocks of different lengths.
pub open spec fn ends_streams(source: Option<Buf>, target: Option<Buf>) -> bool {
    match (source, target) {
        (Some(s), Some(t)) => s.length == 0 || t.length == 0 || s.length != t.length,
        _ => true,
    }
}

impl Orchestrator {
    /// Every compared block holds at least one byte, and only compared
    /// blocks can differ.
    pub open spec fn wf(&self) -> bool {
        self.diff_count <= self.total_count <= self.position
    }

    /// How many buffers each reader is primed with.
    pub open spec fn buffers_per_stream(&self) -> nat {
        (self.channel_capacity / 2) as nat
    }

    /// The state after a pair of arrivals, and what is decided for them.
    pub open spec fn spec_on_pair(self, source: Option<Buf>, target: Option<Buf>) -> (
        Orchestrator,
        Decision,
    ) {
        if ends_streams(source, target) {
            (Orchestrator { phase: Phase::Draining, ..self }, Decision::Drain { last_source: source, last_target: target })
        } else {
            let s = source->0;
            let t = target->0;
            if s@ == t@ {
                (
                    Orchestrator {
                        position: (self.position + s.length) as u64,
                        total_count: (self.total_count + 1) as u64,
                        ..self
                    },
                    Decision::Recycle { source: s, target: t },
                )
            } else {
                (
                    Orchestrator {
                        position: (self.position + s.length) as u64,
                        total_count: (self.total_count + 1) as u64,
                        diff_count: (self.diff_count + 1) as u64,
                        ..self
                    },
                    Decision::Rewrite { position: self.position, source: s, target: t },
                )
            }
        }
    }

    /// The first error among the three tasks, asked in the order source
    /// reader, target reader, writer; the counts if there is none.
    pub open spec fn spec_outcome(
        self,
        source_reader: Option<SyncError>,
        target_reader: Option<SyncError>,
        writer: Option<SyncError>,
    ) -> Result<Report, SyncError> {
        if let Some(e) = source_reader {
            Err(e)
        } else if let Some(e) = target_reader {
            Err(e)
        } else if let Some(e) = writer {
            Err(e)
        } else {
            Ok(
                Report {
                    total_count: self.total_count,
                    diff_count: self.diff_count,
                    bytes: self.position,
                },
            )
        }
    }

    /// An orchestrator at the start of a run, for buffers of `block_size`
    /// bytes and channels of `channel_capacity` places.
    pub fn new(block_size: usize, channel_capacity: usize) -> (orchestrator: Orchestrator)
        ensures
            orchestrator == (Orchestrator {
                phase: Phase::Prime,
                block_size,
                channel_capacity,
                position: 0,
                total_count: 0,
                diff_count: 0,
            }),
            orchestrator.wf(),
    {
        Orchestrator {
            phase: Phase::Prime,
            block_size,
            channel_capacity,
            position: 0,
            total_count: 0,
            diff_count: 0,
        }
    }

    /// Creates the buffers of the run: for each reader half as many as a
    /// channel has places, all fresh and of `block_size` bytes. These are
    /// the only buffers the pipeline ever owns.
    pub fn prime(&mut self) -> (buffers: (Vec<Buf>, Vec<Buf>))
        requires
            old(self).phase == Phase::Prime,
        ensures
            *final(self) == (Orchestrator { phase: Phase::Running, ..*old(self) }),
            buffers.0.len() == old(self).buffers_per_stream(),
            buffers.1.len() == old(self).buffers_per_stream(),
            forall|i: int|
                0 <= i < buffers.0.len() ==> (#[trigger] buffers.0[i]).is_fresh(
                    old(self).block_size,
                ),
            forall|i: int|
                0 <= i < buffers.1.len() ==> (#[trigger] buffers.1[i]).is_fresh(
                    old(self).block_size,
                ),
    {
        let per_stream = self.channel_capacity / 2;
        let mut source: Vec<Buf> = Vec::new();
        let mut target: Vec<Buf> = Vec::new();
        let mut i: usize = 0;
        while i < per_stream
            invariant
                i <= per_stream,
                source.len() == i,
                target.len() == i,
                forall|j: int| 0 <= j < i ==> (#[trigger] source[j]).is_fresh(self.block_size),
                forall|j: int| 0 <= j < i ==> (#[trigger] target[j]).is_fresh(self.block_size),
            decreases per_stream - i,
        {
            source.push(Buf::new(self.block_size));
            target.push(Buf::new(self.block_size));
            i += 1;
        }
        self.phase = Phase::Running;
        (source, target)
    }

    /// Takes the next arrival of each stream, `None` for a stream whose
    /// reader has gone, and decides.
    ///
    /// Equal blocks are recycled, differing blocks are rewritten at the
    /// current position; either way the position advances by the block's
    /// length and the block is counted. A pair that ends the streams is not
    /// counted and moves the orchestrator to draining. The buffers that
    /// arrive are the buffers that the decision hands on.
    pub fn on_pair(&mut self, source: Option<Buf>, target: Option<Buf>) -> (decision: Decision)
        requires
            old(self).wf(),
            old(self).phase == Phase::Running,
            source matches Some(s) ==> s.wf(),
            target matches Some(t) ==> t.wf(),
            !ends_streams(source, target) ==> old(self).position + source->0.length <= u64::MAX,
        ensures
            (*final(self), decision) == old(self).spec_on_pair(source, target),
            final(self).wf(),
            decision.buffers() == arrived(source) + arrived(target),
            final(self).position == old(self).position + decision.progress(),
    {
        match (source, target) {
            (Some(s), Some(t)) => {
                if s.length == 0 || t.length == 0 || s.length != t.length {
                    self.phase = Phase::Draining;
                    Decision::Drain { last_source: Some(s), last_target: Some(t) }
                } else {
                    let position = self.position;
                    self.position = position + s.length as u64;
                    self.total_count = self.total_count + 1;
                    if s.content_eq(&t) {
                        Decision::Recycle { source: s, target: t }
                    } else {
                        self.diff_count = self.diff_count + 1;
                        Decision::Rewrite { position, source: s, target: t }
                    }
                }
            },
            (source, target) => {
                self.phase = Phase::Draining;
                Decision::Drain { last_source: source, last_target: target }
            },
        }
    }

    /// The writer has gone while pairs were still being compared: no more
    /// work is issued. What was counted stays counted.
    pub fn on_writer_gone(&mut self)
        requires
            old(self).phase == Phase::Running,
        ensures
            *final(self) == (Orchestrator { phase: Phase::Draining, ..*old(self) }),
    {
        self.phase = Phase::Draining;
    }

    /// All three tasks have ended, each with the error it met, if any.
    /// Reports the counts, or the first error in the order source reader,
    /// target reader, writer.
    pub fn on_drained(
        &mut self,
        source_reader: Option<SyncError>,
        target_reader: Option<SyncError>,
        writer: Option<SyncError>,
    ) -> (outcome: Result<Report, SyncError>)
        requires
            old(self).phase == Phase::Draining,
        ensures
            *final(self) == (Orchestrator { phase: Phase::Done, ..*old(self) }),
            outcome == old(self).spec_outcome(source_reader, target_reader, writer),
    {
        self.phase = Phase::Done;
        if let Some(e) = source_reader {
            Err(e)
        } else if let Some(e) = target_reader {
            Err(e)
        } else if let Some(e) = writer {
            Err(e)
        } else {
            Ok(
                Report {
                    total_count: self.total_count,
                    diff_count: self.diff_count,
                    bytes: self.position,
                },
            )
        }
    }
}

} // verus!
