//! The whole pipeline on streams held in memory: two readers, the
//! orchestrator and the writer, joined by bounded channels.
//!
//! The tasks act through the same step functions that drive them on real
//! handles. Each task takes its turn whenever it is asked to, in any
//! order; a task that would have to wait does nothing. Every turn does to
//! the pipeline what the state machine says it does.

use vstd::prelude::*;
use vstd::pervasive::unreached;
use vstd::slice::slice_to_vec;
use crate::buffer::Buf;
use crate::channel::{Channel, TryRecv, TrySend};
use crate::memory::{available, read_at, write_at};
use crate::model::{State, Task};
use crate::orchestrator::{Decision, Orchestrator, Phase, Report};
use crate::reader::{Reader, ReaderAction, ReaderEvent};
use crate::stream::{
    compared_bytes, diff_count, patched, synced, total_count, writes, WriteRequest,
};
use crate::writer::{WriterAction, WriterEvent};

verus! {

/// One write that the writer committed.
#[derive(Debug)]
pub struct WriteRecord {
    pub position: u64,
    pub bytes: Vec<u8>,
}

impl View for WriteRecord {
    type V = WriteRequest;

    open spec fn view(&self) -> WriteRequest {
        WriteRequest { position: self.position as nat, bytes: self.bytes@ }
    }
}

/// The writes that a log of records stands for.
pub open spec fn record_views(records: Seq<WriteRecord>) -> Seq<WriteRequest> {
    records.map_values(|r: WriteRecord| r@)
}

/// What a finished run leaves behind.
#[derive(Debug)]
pub struct Summary {
    /// The target stream after the run.
    pub target: Vec<u8>,
    /// The counts.
    pub report: Report,
    /// The writes that were committed, in the order in which they were.
    pub writes: Vec<WriteRecord>,
    /// How many buffers the pipeline gave up at shutdown.
    pub buffers: usize,
}

/// A buffer in circulation: sound, and of the pipeline's block size.
spec fn circulating(buf: Buf, block_size: nat) -> bool {
    buf.wf() && buf.data@.len() == block_size
}

/// Every buffer queued in `channel` is in circulation.
spec fn all_circulating(channel: Channel<Buf>, block_size: nat) -> bool {
    forall|i: int|
        0 <= i < channel.queue@.len() ==> circulating(#[trigger] channel.queue@[i], block_size)
}

/// The blocks that the buffers queued in `channel` hold.
spec fn blocks(channel: Channel<Buf>) -> Seq<Seq<u8>> {
    channel.queue@.map_values(|b: Buf| b@)
}

/// The write that a queued request asks for.
spec fn request_view(request: (u64, Buf)) -> WriteRequest {
    WriteRequest { position: request.0 as nat, bytes: request.1@ }
}

/// Takes every buffer that is still queued in `channel` out of circulation.
fn retire_queued(channel: &mut Channel<Buf>, retired: &mut Vec<Buf>)
    requires
        old(channel).wf(),
    ensures
        final(channel).wf(),
        final(channel).queue@.len() == 0,
        final(channel).capacity == old(channel).capacity,
        final(channel).closed == old(channel).closed,
        final(retired)@.len() == old(retired)@.len() + old(channel).queue@.len(),
{
    let mut queued = channel.len();
    while queued > 0
        invariant
            channel.wf(),
            queued == channel.queue@.len(),
            channel.capacity == old(channel).capacity,
            channel.closed == old(channel).closed,
            retired@.len() + queued == old(retired)@.len() + old(channel).queue@.len(),
        decreases queued,
    {
        match channel.try_recv() {
            TryRecv::Item(buf) => {
                retired.push(buf);
            },
            _ => unreached(),
        }
        queued -= 1;
    }
}

/// Sends `buf` to a reader's forward channel. If the reader has ended and
/// closed the channel, the buffer leaves circulation instead.
fn give_back(channel: &mut Channel<Buf>, retired: &mut Vec<Buf>, buf: Buf)
    requires
        old(channel).wf(),
        !old(channel).closed ==> old(channel).queue@.len() < old(channel).capacity,
    ensures
        final(channel).wf(),
        final(channel).capacity == old(channel).capacity,
        final(channel).closed == old(channel).closed,
        old(channel).closed ==> {
            &&& final(channel).queue@ == old(channel).queue@
            &&& final(retired)@ == old(retired)@.push(buf)
        },
        !old(channel).closed ==> {
            &&& final(channel).queue@.len() == old(channel).queue@.len() + 1
            &&& final(channel).queue@.drop_last() == old(channel).queue@
            &&& final(channel).queue@.last() == buf
            &&& final(retired)@ == old(retired)@
        },
{
    match channel.try_send(buf) {
        TrySend::Sent => {
            assert(channel.queue@.drop_last() =~= old(channel).queue@);
        },
        TrySend::Closed(buf) => {
            retired.push(buf);
        },
        TrySend::Full(_) => unreached(),
    }
}

/// One turn of a reader task. If the reader has not ended and a buffer
/// waits for it, it takes the buffer, reads once at its cursor, and sends
/// the buffer on. A read of nothing ends the task: the buffer and those
/// that still wait are retired, and both channels close.
fn reader_turn(
    stream: &Vec<u8>,
    reader: &mut Reader,
    inbound: &mut Channel<Buf>,
    outbound: &mut Channel<Buf>,
    retired: &mut Vec<Buf>,
) -> (acted: bool)
    requires
        old(inbound).wf(),
        old(outbound).wf(),
        old(inbound).closed == old(outbound).closed,
        old(inbound).queue@.len() > 0 ==> old(outbound).queue@.len() < old(outbound).capacity,
        old(reader).cursor <= stream@.len(),
    ensures
        final(inbound).wf(),
        final(outbound).wf(),
        final(inbound).capacity == old(inbound).capacity,
        final(outbound).capacity == old(outbound).capacity,
        final(inbound).closed == final(outbound).closed,
        acted == (!old(outbound).closed && old(inbound).queue@.len() > 0),
        !acted ==> {
            &&& *final(reader) == *old(reader)
            &&& final(inbound).queue@ == old(inbound).queue@
            &&& final(outbound).queue@ == old(outbound).queue@
            &&& final(outbound).closed == old(outbound).closed
            &&& final(retired)@ == old(retired)@
        },
        acted ==> ({
            let buf = old(inbound).queue@[0];
            let cursor = old(reader).cursor as int;
            let count = available(stream@.len(), cursor as nat, buf.data@.len());
            if count > 0 {
                let filled = final(outbound).queue@.last();
                &&& final(reader).cursor == cursor + count
                &&& !final(outbound).closed
                &&& final(inbound).queue@ == old(inbound).queue@.skip(1)
                &&& final(outbound).queue@.len() == old(outbound).queue@.len() + 1
                &&& final(outbound).queue@.drop_last() == old(outbound).queue@
                &&& circulating(filled, buf.data@.len())
                &&& filled@ == stream@.subrange(cursor, cursor + count)
                &&& final(retired)@ == old(retired)@
            } else {
                &&& *final(reader) == *old(reader)
                &&& final(outbound).closed
                &&& final(inbound).queue@.len() == 0
                &&& final(outbound).queue@ == old(outbound).queue@
                &&& final(retired)@.len() == old(retired)@.len() + old(inbound).queue@.len()
            }
        }),
{
    if outbound.closed {
        return false;
    }
    let ghost cursor = reader.cursor as int;
    let buf = match inbound.try_recv() {
        TryRecv::Item(buf) => buf,
        _ => {
            return false;
        },
    };
    let mut buf = match reader.step(ReaderEvent::Received(buf)) {
        ReaderAction::Read(buf) => buf,
        _ => unreached(),
    };
    assert(stream@.len() == stream.len());
    let count = read_at(stream.as_slice(), reader.cursor as usize, &mut buf.data);
    match reader.step(ReaderEvent::ReadDone { buf, count }) {
        ReaderAction::Send(filled) => {
            assert(filled@ =~= stream@.subrange(cursor, cursor + count));
            match outbound.try_send(filled) {
                TrySend::Sent => {},
                _ => unreached(),
            }
            assert(outbound.queue@.drop_last() =~= old(outbound).queue@);
            let _ = reader.step(ReaderEvent::Sent);
        },
        ReaderAction::EndOfStream(empty) => {
            retired.push(empty);
            outbound.close();
            inbound.close();
            retire_queued(inbound, retired);
        },
        _ => unreached(),
    }
    true
}

/// A queue of buffers in circulation stays one when it is emptied, when
/// its head is taken, or when a buffer in circulation joins it; and the
/// blocks that it holds change with it.
proof fn lemma_queue_step(before: Channel<Buf>, after: Channel<Buf>, block_size: nat)
    requires
        all_circulating(before, block_size),
        ({
            ||| after.queue@ == before.queue@
            ||| after.queue@.len() == 0
            ||| before.queue@.len() > 0 && after.queue@ == before.queue@.skip(1)
            ||| after.queue@.len() > 0 && after.queue@.drop_last() == before.queue@
                && circulating(after.queue@.last(), block_size)
        }),
    ensures
        all_circulating(after, block_size),
        before.queue@.len() > 0 && after.queue@ == before.queue@.skip(1) ==> blocks(after)
            == blocks(before).skip(1),
        after.queue@.len() > 0 && after.queue@.drop_last() == before.queue@ ==> blocks(after)
            == blocks(before).push(after.queue@.last()@),
{
    if after.queue@ == before.queue@ || after.queue@.len() == 0 {
    } else if before.queue@.len() > 0 && after.queue@ == before.queue@.skip(1) {
        assert forall|i: int| 0 <= i < after.queue@.len() implies circulating(
            #[trigger] after.queue@[i],
            block_size,
        ) by {
            assert(after.queue@[i] == before.queue@[i + 1]);
        }
    } else {
        assert forall|i: int| 0 <= i < after.queue@.len() implies circulating(
            #[trigger] after.queue@[i],
            block_size,
        ) by {
            if i < before.queue@.len() {
                assert(after.queue@[i] == after.queue@.drop_last()[i]);
            }
        }
    }
    if before.queue@.len() > 0 && after.queue@ == before.queue@.skip(1) {
        assert(blocks(after) =~= blocks(before).skip(1));
    }
    if after.queue@.len() > 0 && after.queue@.drop_last() == before.queue@ {
        assert(after.queue@ =~= before.queue@.push(after.queue@.last()));
        assert(blocks(after) =~= blocks(before).push(after.queue@.last()@));
    }
}

/// The pipeline on two streams held in memory.
pub struct Pipeline {
    source: Vec<u8>,
    target: Vec<u8>,
    initial: Ghost<Seq<u8>>,
    orchestrator: Orchestrator,
    source_reader: Reader,
    target_reader: Reader,
    source_forward: Channel<Buf>,
    target_forward: Channel<Buf>,
    source_result: Channel<Buf>,
    target_result: Channel<Buf>,
    requests: Channel<(u64, Buf)>,
    source_retired: Vec<Buf>,
    target_retired: Vec<Buf>,
    log: Vec<WriteRecord>,
}

impl View for Pipeline {
    type V = State;

    /// The state of the pipeline between turns.
    closed spec fn view(&self) -> State {
        State {
            source: self.source@,
            initial: self.initial@,
            target: self.target@,
            block_size: self.orchestrator.block_size as nat,
            channel_capacity: self.orchestrator.channel_capacity as nat,
            running: self.orchestrator.phase == Phase::Running,
            rounds: self.orchestrator.total_count as nat,
            position: self.orchestrator.position as nat,
            differing: self.orchestrator.diff_count as nat,
            log: record_views(self.log@),
            pending: self.requests.queue@.map_values(|r: (u64, Buf)| request_view(r)),
            source_cursor: self.source_reader.cursor as nat,
            target_cursor: self.target_reader.cursor as nat,
            source_ended: self.source_result.closed,
            target_ended: self.target_result.closed,
            source_waiting: self.source_forward.queue@.len(),
            target_waiting: self.target_forward.queue@.len(),
            source_results: blocks(self.source_result),
            target_results: blocks(self.target_result),
            source_retired: self.source_retired@.len(),
            target_retired: self.target_retired@.len(),
        }
    }
}

impl Pipeline {
    /// What holds of the channels and the buffers between turns: every
    /// channel has the pipeline's capacity and is within it, every queued
    /// buffer is sound and of the block size, a reader's two channels are
    /// open or closed together, and the request channel is open.
    pub closed spec fn sound(&self) -> bool {
        let block_size = self.orchestrator.block_size as nat;
        let capacity = self.orchestrator.channel_capacity;
        &&& self.orchestrator.wf()
        &&& self.orchestrator.phase == Phase::Running || self.orchestrator.phase
            == Phase::Draining
        &&& self.source_forward.capacity == capacity && self.source_forward.wf()
        &&& self.target_forward.capacity == capacity && self.target_forward.wf()
        &&& self.source_result.capacity == capacity && self.source_result.wf()
        &&& self.target_result.capacity == capacity && self.target_result.wf()
        &&& self.requests.capacity == capacity && self.requests.wf()
        &&& all_circulating(self.source_forward, block_size)
        &&& all_circulating(self.target_forward, block_size)
        &&& all_circulating(self.source_result, block_size)
        &&& all_circulating(self.target_result, block_size)
        &&& forall|i: int|
            0 <= i < self.requests.queue@.len() ==> circulating(
                (#[trigger] self.requests.queue@[i]).1,
                block_size,
            )
        &&& self.source_forward.closed == self.source_result.closed
        &&& self.target_forward.closed == self.target_result.closed
        &&& !self.requests.closed
    }

    /// What holds between turns: the channels are sound, and the state is
    /// on track.
    pub open spec fn inv(&self) -> bool {
        self.sound() && self@.on_track()
    }

    /// Sets the pipeline up on `source` and `target`: makes the channels
    /// and primes each reader's forward channel with half as many fresh
    /// buffers as a channel has places.
    pub fn new(
        source: Vec<u8>,
        target: Vec<u8>,
        block_size: usize,
        channel_capacity: usize,
    ) -> (pipeline: Pipeline)
        requires
            channel_capacity >= 2,
        ensures
            pipeline.inv(),
            pipeline@ == State::primed(
                source@,
                target@,
                block_size as nat,
                channel_capacity as nat,
            ),
    {
        let mut orchestrator = Orchestrator::new(block_size, channel_capacity);
        let (mut for_source, mut for_target) = orchestrator.prime();
        let mut source_forward: Channel<Buf> = Channel::new(channel_capacity);
        let mut target_forward: Channel<Buf> = Channel::new(channel_capacity);
        let per_stream = channel_capacity / 2;
        while for_source.len() > 0
            invariant
                for_source@.len() == for_target@.len(),
                for_source@.len() <= per_stream,
                per_stream == channel_capacity / 2,
                source_forward.capacity == channel_capacity,
                target_forward.capacity == channel_capacity,
                !source_forward.closed,
                !target_forward.closed,
                source_forward.queue@.len() == per_stream - for_source@.len(),
                target_forward.queue@.len() == per_stream - for_source@.len(),
                forall|i: int|
                    0 <= i < for_source@.len() ==> (#[trigger] for_source@[i]).is_fresh(
                        block_size,
                    ),
                forall|i: int|
                    0 <= i < for_target@.len() ==> (#[trigger] for_target@[i]).is_fresh(
                        block_size,
                    ),
                all_circulating(source_forward, block_size as nat),
                all_circulating(target_forward, block_size as nat),
            decreases for_source@.len(),
        {
            let s = for_source.pop();
            let t = for_target.pop();
            match (s, t) {
                (Some(s), Some(t)) => {
                    match source_forward.try_send(s) {
                        TrySend::Sent => {},
                        _ => unreached(),
                    }
                    match target_forward.try_send(t) {
                        TrySend::Sent => {},
                        _ => unreached(),
                    }
                },
                _ => unreached(),
            }
        }
        let ghost initial = target@;
        let ghost primed = State::primed(
            source@,
            target@,
            block_size as nat,
            channel_capacity as nat,
        );
        let pipeline = Pipeline {
            source,
            target,
            initial: Ghost(initial),
            orchestrator,
            source_reader: Reader::new(),
            target_reader: Reader::new(),
            source_forward,
            target_forward,
            source_result: Channel::new(channel_capacity),
            target_result: Channel::new(channel_capacity),
            requests: Channel::new(channel_capacity),
            source_retired: Vec::new(),
            target_retired: Vec::new(),
            log: Vec::new(),
        };
        proof {
            State::lemma_primed(
                pipeline.source@,
                initial,
                block_size as nat,
                channel_capacity as nat,
            );
            assert(pipeline@ =~= primed);
        }
        pipeline
    }

    /// Whether pairs are still being compared.
    pub fn is_running(&self) -> (running: bool)
        ensures
            running == self@.running,
    {
        self.orchestrator.phase == Phase::Running
    }

    /// How many buffers the pipeline owns.
    pub fn buffer_count(&self) -> (count: usize)
        requires
            self.inv(),
        ensures
            count == self@.buffers(),
    {
        self.source_forward.len() + self.source_result.len() + self.requests.len()
            + self.source_retired.len() + self.target_forward.len() + self.target_result.len()
            + self.target_retired.len()
    }

    /// Gives the source reader its turn: if it has not ended and a buffer
    /// waits for it, it reads the source's next block into the buffer and
    /// sends it to the orchestrator, or ends if the source has no more.
    pub fn source_reader_turn(&mut self) -> (acted: bool)
        requires
            old(self).inv(),
        ensures
            final(self).inv(),
            final(self)@ == old(self)@.source_reader_turn(),
            acted == old(self)@.source_reader_ready(),
    {
        proof {
            reveal(State::source_reader_turn);
            self@.lemma_source_reader_turn();
        }
        let acted = reader_turn(
            &self.source,
            &mut self.source_reader,
            &mut self.source_forward,
            &mut self.source_result,
            &mut self.source_retired,
        );
        proof {
            let block_size = self.orchestrator.block_size as nat;
            lemma_queue_step(old(self).source_forward, self.source_forward, block_size);
            lemma_queue_step(old(self).source_result, self.source_result, block_size);
            assert(self@ =~= old(self)@.source_reader_turn());
        }
        acted
    }

    /// Gives the target reader its turn: as the source reader's, on the
    /// target.
    pub fn target_reader_turn(&mut self) -> (acted: bool)
        requires
            old(self).inv(),
        ensures
            final(self).inv(),
            final(self)@ == old(self)@.target_reader_turn(),
            acted == old(self)@.target_reader_ready(),
    {
        proof {
            reveal(State::target_reader_turn);
            self@.lemma_target_reader_turn();
        }
        let acted = reader_turn(
            &self.target,
            &mut self.target_reader,
            &mut self.target_forward,
            &mut self.target_result,
            &mut self.target_retired,
        );
        proof {
            let block_size = self.orchestrator.block_size as nat;
            lemma_queue_step(old(self).target_forward, self.target_forward, block_size);
            lemma_queue_step(old(self).target_result, self.target_result, block_size);
            assert(self@ =~= old(self)@.target_reader_turn());
        }
        acted
    }
}

impl Pipeline {
    /// Gives the orchestrator its turn: if it is comparing and each stream
    /// has a block for it or has ended, it takes the pair and hands the
    /// buffers on as it decides.
    pub fn orchestrator_turn(&mut self) -> (acted: bool)
        requires
            old(self).inv(),
        ensures
            final(self).inv(),
            final(self)@ == old(self)@.orchestrator_turn(),
            acted == old(self)@.orchestrator_ready(),
    {
        proof {
            reveal(State::orchestrator_turn);
            self@.lemma_orchestrator_turn();
        }
        let source_here = self.source_result.len() > 0 || self.source_result.closed;
        let target_here = self.target_result.len() > 0 || self.target_result.closed;
        if !(self.is_running() && source_here && target_here) {
            return false;
        }
        let from_source = match self.source_result.try_recv() {
            TryRecv::Item(buf) => Some(buf),
            _ => None,
        };
        let from_target = match self.target_result.try_recv() {
            TryRecv::Item(buf) => Some(buf),
            _ => None,
        };
        proof {
            let block_size = self.orchestrator.block_size as nat;
            lemma_queue_step(old(self).source_result, self.source_result, block_size);
            lemma_queue_step(old(self).target_result, self.target_result, block_size);
            assert(self.source@.len() == self.source.len());
            assert(from_source matches Some(buf) ==> buf == old(self).source_result.queue@[0]
                && buf@ == old(self)@.source_results[0]);
            assert(from_target matches Some(buf) ==> buf == old(self).target_result.queue@[0]
                && buf@ == old(self)@.target_results[0]);
        }
        let ghost requests_before = self.requests.queue@;
        match self.orchestrator.on_pair(from_source, from_target) {
            Decision::Recycle { source, target } => {
                give_back(&mut self.source_forward, &mut self.source_retired, source);
                give_back(&mut self.target_forward, &mut self.target_retired, target);
            },
            Decision::Rewrite { position, source, target } => {
                match self.requests.try_send((position, source)) {
                    TrySend::Sent => {},
                    _ => unreached(),
                }
                give_back(&mut self.target_forward, &mut self.target_retired, target);
                proof {
                    assert forall|i: int| 0 <= i < self.requests.queue@.len() implies circulating(
                        (#[trigger] self.requests.queue@[i]).1,
                        self.orchestrator.block_size as nat,
                    ) by {
                        if i < requests_before.len() {
                            assert(self.requests.queue@[i] == requests_before[i]);
                        }
                    }
                    assert(self@.pending =~= old(self)@.pending.push(
                        request_view((position, source)),
                    ));
                }
            },
            Decision::Drain { last_source, last_target } => {
                match last_source {
                    Some(buf) => {
                        self.source_retired.push(buf);
                    },
                    None => {},
                }
                match last_target {
                    Some(buf) => {
                        self.target_retired.push(buf);
                    },
                    None => {},
                }
            },
        }
        proof {
            let block_size = self.orchestrator.block_size as nat;
            lemma_queue_step(old(self).source_forward, self.source_forward, block_size);
            lemma_queue_step(old(self).target_forward, self.target_forward, block_size);
            assert(self@ =~= old(self)@.orchestrator_turn());
        }
        true
    }

    /// Gives the writer its turn: if a request waits, it commits the block
    /// to the target, logs the write, and gives the buffer back to the
    /// source reader.
    pub fn writer_turn(&mut self) -> (acted: bool)
        requires
            old(self).inv(),
        ensures
            final(self).inv(),
            final(self)@ == old(self)@.writer_turn(),
            acted == old(self)@.writer_ready(),
    {
        proof {
            reveal(State::writer_turn);
            self@.lemma_writer_turn();
        }
        let (position, buf) = match self.requests.try_recv() {
            TryRecv::Item(request) => request,
            _ => {
                return false;
            },
        };
        proof {
            assert(request_view((position, buf)) == old(self)@.pending[0]);
            assert(self@.pending =~= old(self)@.pending.skip(1));
            assert forall|i: int| 0 <= i < self.requests.queue@.len() implies circulating(
                (#[trigger] self.requests.queue@[i]).1,
                self.orchestrator.block_size as nat,
            ) by {
                assert(self.requests.queue@[i] == old(self).requests.queue@[i + 1]);
            }
        }
        let (position, buf) = match crate::writer::step(WriterEvent::Request { position, buf }) {
            WriterAction::Seek { position, buf } => (position, buf),
            _ => unreached(),
        };
        let sought = if position <= self.target.len() as u64 {
            WriterEvent::SeekDone { position, buf }
        } else {
            WriterEvent::SeekFailed { position, buf }
        };
        let (position, buf) = match crate::writer::step(sought) {
            WriterAction::Write { position, buf } => (position, buf),
            _ => unreached(),
        };
        let written = write_at(&mut self.target, position as usize, buf.as_slice());
        let bytes = slice_to_vec(buf.as_slice());
        let buf = match crate::writer::step(WriterEvent::WriteDone { position, buf, written }) {
            WriterAction::Return(buf) => buf,
            _ => unreached(),
        };
        self.log.push(WriteRecord { position, bytes });
        proof {
            assert(buf@.take(written as int) =~= buf@);
            assert(self.target@ =~= patched(old(self).target@, position as int, buf@));
            assert(self@.log =~= old(self)@.log.push(request_view((position, buf))));
        }
        match self.source_forward.try_send(buf) {
            TrySend::Sent => {
                assert(self.source_forward.queue@.drop_last() =~= old(self).source_forward.queue@);
                let _ = crate::writer::step(WriterEvent::Returned);
            },
            TrySend::Closed(buf) => {
                self.source_retired.push(buf);
                let _ = crate::writer::step(WriterEvent::ReturnFailed);
            },
            TrySend::Full(_) => unreached(),
        }
        proof {
            lemma_queue_step(
                old(self).source_forward,
                self.source_forward,
                self.orchestrator.block_size as nat,
            );
            assert(self@ =~= old(self)@.writer_turn());
        }
        true
    }

    /// Shuts the pipeline down once the comparison has stopped: the writer
    /// commits the requests that still wait, every channel closes, the
    /// buffers still queued are retired, and the counts are reported.
    pub fn finish(self) -> (summary: Summary)
        requires
            self.inv(),
            !self@.running,
        ensures
            summary.target@ == synced(self@.source, self@.initial, self@.block_size),
            summary.report.total_count == total_count(
                self@.source,
                self@.initial,
                self@.block_size,
            ),
            summary.report.diff_count == diff_count(
                self@.source,
                self@.initial,
                self@.block_size,
            ),
            summary.report.bytes == compared_bytes(
                self@.source,
                self@.initial,
                self@.block_size,
            ),
            record_views(summary.writes@) == writes(
                self@.source,
                self@.initial,
                self@.block_size,
            ),
            summary.buffers == self@.buffers(),
    {
        let mut pipeline = self;
        while pipeline.requests.len() > 0
            invariant
                pipeline.inv(),
                !pipeline@.running,
                pipeline@.source == self@.source,
                pipeline@.initial == self@.initial,
                pipeline@.block_size == self@.block_size,
                pipeline@.buffers() == self@.buffers(),
            decreases pipeline@.pending.len(),
        {
            proof {
                reveal(State::writer_turn);
                pipeline@.lemma_writer_turn();
            }
            pipeline.writer_turn();
        }
        proof {
            pipeline@.lemma_finished();
        }
        pipeline.source_forward.close();
        pipeline.target_forward.close();
        pipeline.source_result.close();
        pipeline.target_result.close();
        pipeline.requests.close();
        let mut retired = pipeline.source_retired;
        let mut others = pipeline.target_retired;
        retire_queued(&mut pipeline.source_forward, &mut retired);
        retire_queued(&mut pipeline.source_result, &mut retired);
        retire_queued(&mut pipeline.target_forward, &mut others);
        retire_queued(&mut pipeline.target_result, &mut others);
        let report = match pipeline.orchestrator.on_drained(None, None, None) {
            Ok(report) => report,
            Err(_) => unreached(),
        };
        Summary {
            target: pipeline.target,
            report,
            writes: pipeline.log,
            buffers: retired.len() + others.len(),
        }
    }
}

impl Pipeline {
    /// Gives `task` its turn. A task that has nothing to take does
    /// nothing.
    pub fn turn(&mut self, task: Task) -> (acted: bool)
        requires
            old(self).inv(),
        ensures
            final(self).inv(),
            final(self)@ == old(self)@.turn(task),
            acted == old(self)@.ready(task),
    {
        match task {
            Task::SourceReader => self.source_reader_turn(),
            Task::TargetReader => self.target_reader_turn(),
            Task::Orchestrator => self.orchestrator_turn(),
            Task::Writer => self.writer_turn(),
        }
    }
}

/// Runs the pipeline on `source` and `target` until the streams end, the
/// tasks taking turns one after the other.
///
/// The pairs compared are those before the first pair with an empty block
/// or with blocks of different lengths. Each compared pair that differs is
/// rewritten once, at its block's offset, with the source's block; the
/// others cause no write. Afterwards the target holds the source's bytes as
/// far as pairs were compared and its own bytes beyond, and is as long as
/// it was. Every buffer made at the start is given up at the end.
pub fn run(
    source: Vec<u8>,
    target: Vec<u8>,
    block_size: usize,
    channel_capacity: usize,
) -> (summary: Summary)
    requires
        channel_capacity >= 2,
    ensures
        summary.target@ == synced(source@, target@, block_size as nat),
        summary.report.total_count == total_count(source@, target@, block_size as nat),
        summary.report.diff_count == diff_count(source@, target@, block_size as nat),
        summary.report.bytes == compared_bytes(source@, target@, block_size as nat),
        record_views(summary.writes@) == writes(source@, target@, block_size as nat),
        summary.buffers == 2 * (channel_capacity / 2),
{
    let mut pipeline = Pipeline::new(source, target, block_size, channel_capacity);
    proof {
        State::lemma_primed(source@, target@, block_size as nat, channel_capacity as nat);
    }
    while pipeline.is_running()
        invariant
            pipeline.inv(),
            pipeline@.source == source@,
            pipeline@.initial == target@,
            pipeline@.block_size == block_size,
            pipeline@.buffers() == 2 * (channel_capacity / 2),
            0 <= pipeline@.work(),
        decreases pipeline@.work(),
    {
        proof {
            pipeline@.lemma_cycle();
        }
        pipeline.source_reader_turn();
        pipeline.target_reader_turn();
        pipeline.orchestrator_turn();
        pipeline.writer_turn();
    }
    pipeline.finish()
}

} // verus!
