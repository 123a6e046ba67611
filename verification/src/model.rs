//! The pipeline as a state machine: what each task's turn does to the
//! streams, the channels and the counters, and what holds of every state
//! that the turns can reach, in whatever order the tasks take them.
//!
//! A turn is what a task does between two waits: a reader takes a buffer,
//! reads once and sends the buffer on; the orchestrator takes a pair and
//! hands the two buffers on; the writer takes a request, commits it and
//! gives the buffer back. A task whose inbound channel has nothing for it
//! is not ready, and its turn changes nothing.

use vstd::prelude::*;
use crate::memory::available;
use crate::stream::{
    applied, block, clip, compared_blocks, compared_bytes, compared_through, diff_count,
    differing_blocks, lemma_applied_keeps_rest, lemma_applied_plan,
    lemma_compared_blocks_is_first_end, lemma_compared_prefix, pair_ends, patched, synced,
    total_count, write_plan, writes, WriteRequest,
};

verus! {

/// The state of a pipeline between turns.
#[verifier::ext_equal]
pub struct State {
    /// The source stream.
    pub source: Seq<u8>,
    /// The target stream as it was before the run.
    pub initial: Seq<u8>,
    /// The target stream as it is now.
    pub target: Seq<u8>,
    /// The capacity of every buffer.
    pub block_size: nat,
    /// The capacity of every channel.
    pub channel_capacity: nat,
    /// Whether the orchestrator is still comparing pairs.
    pub running: bool,
    /// How many pairs the orchestrator has compared.
    pub rounds: nat,
    /// The byte offset of the next pair.
    pub position: nat,
    /// How many of the compared pairs differed.
    pub differing: nat,
    /// The writes that the writer has committed, in order.
    pub log: Seq<WriteRequest>,
    /// The writes that wait in the request channel, in order.
    pub pending: Seq<WriteRequest>,
    /// How far the source reader has read.
    pub source_cursor: nat,
    /// How far the target reader has read.
    pub target_cursor: nat,
    /// Whether the source reader has ended.
    pub source_ended: bool,
    /// Whether the target reader has ended.
    pub target_ended: bool,
    /// How many buffers wait in the source reader's forward channel.
    pub source_waiting: nat,
    /// How many buffers wait in the target reader's forward channel.
    pub target_waiting: nat,
    /// The blocks that wait in the source reader's result channel.
    pub source_results: Seq<Seq<u8>>,
    /// The blocks that wait in the target reader's result channel.
    pub target_results: Seq<Seq<u8>>,
    /// How many of the source stream's buffers have left circulation.
    pub source_retired: nat,
    /// How many of the target stream's buffers have left circulation.
    pub target_retired: nat,
}

/// The block at the head of a result channel, or `None` where the channel
/// is empty.
pub open spec fn head(results: Seq<Seq<u8>>) -> Option<Seq<u8>> {
    if results.len() > 0 {
        Some(results[0])
    } else {
        None
    }
}

/// A result channel without its head.
pub open spec fn rest(results: Seq<Seq<u8>>) -> Seq<Seq<u8>> {
    if results.len() > 0 {
        results.skip(1)
    } else {
        results
    }
}

/// Whether a pair of arrivals ends the comparison.
pub open spec fn ends(source: Option<Seq<u8>>, target: Option<Seq<u8>>) -> bool {
    match (source, target) {
        (Some(s), Some(t)) => s.len() == 0 || t.len() == 0 || s.len() != t.len(),
        _ => true,
    }
}

/// One if the arrival brought a buffer, else none.
pub open spec fn one_if(present: bool) -> nat {
    if present {
        1
    } else {
        0
    }
}

impl State {
    /// How many buffers each stream has.
    pub open spec fn per_stream(self) -> nat {
        self.channel_capacity / 2
    }

    /// How many buffers the pipeline owns: those that wait in its channels
    /// and those that have left circulation. Between turns no task holds
    /// one in its hands.
    pub open spec fn buffers(self) -> nat {
        self.source_waiting + self.source_results.len() + self.pending.len()
            + self.source_retired + self.target_waiting + self.target_results.len()
            + self.target_retired
    }

    /// The pipeline right after priming: nothing read, nothing compared,
    /// every buffer waiting in its reader's forward channel.
    pub open spec fn primed(
        source: Seq<u8>,
        target: Seq<u8>,
        block_size: nat,
        channel_capacity: nat,
    ) -> State {
        State {
            source,
            initial: target,
            target,
            block_size,
            channel_capacity,
            running: true,
            rounds: 0,
            position: 0,
            differing: 0,
            log: Seq::empty(),
            pending: Seq::empty(),
            source_cursor: 0,
            target_cursor: 0,
            source_ended: false,
            target_ended: false,
            source_waiting: channel_capacity / 2,
            target_waiting: channel_capacity / 2,
            source_results: Seq::empty(),
            target_results: Seq::empty(),
            source_retired: 0,
            target_retired: 0,
        }
    }

    /// Whether two states are states of the same run: of the same streams,
    /// block size and channel capacity.
    pub open spec fn same_run_as(self, other: State) -> bool {
        &&& self.source == other.source
        &&& self.initial == other.initial
        &&& self.block_size == other.block_size
        &&& self.channel_capacity == other.channel_capacity
    }

    /// The source reader can take its turn: it has not ended and a buffer
    /// waits for it.
    pub open spec fn source_reader_ready(self) -> bool {
        !self.source_ended && self.source_waiting > 0
    }

    /// The target reader can take its turn.
    pub open spec fn target_reader_ready(self) -> bool {
        !self.target_ended && self.target_waiting > 0
    }

    /// The orchestrator can take its turn: it is comparing, and each
    /// stream has a block for it or has ended.
    pub open spec fn orchestrator_ready(self) -> bool {
        &&& self.running
        &&& self.source_results.len() > 0 || self.source_ended
        &&& self.target_results.len() > 0 || self.target_ended
    }

    /// The writer can take its turn: a request waits for it.
    pub open spec fn writer_ready(self) -> bool {
        self.pending.len() > 0
    }

    /// The source reader's turn: it reads the source at its cursor into
    /// the buffer that waited longest. What it read goes to the result
    /// channel; if it read nothing, the reader ends, and the buffers that
    /// it can no longer receive leave circulation.
    #[verifier::opaque]
    pub open spec fn source_reader_turn(self) -> State {
        let count = available(self.source.len(), self.source_cursor, self.block_size);
        if !self.source_reader_ready() {
            self
        } else if count == 0 {
            State {
                source_ended: true,
                source_waiting: 0,
                source_retired: self.source_retired + self.source_waiting,
                ..self
            }
        } else {
            State {
                source_waiting: (self.source_waiting - 1) as nat,
                source_cursor: self.source_cursor + count,
                source_results: self.source_results.push(
                    self.source.subrange(
                        self.source_cursor as int,
                        (self.source_cursor + count) as int,
                    ),
                ),
                ..self
            }
        }
    }

    /// The target reader's turn: as the source reader's, on the target as
    /// it is now.
    #[verifier::opaque]
    pub open spec fn target_reader_turn(self) -> State {
        let count = available(self.target.len(), self.target_cursor, self.block_size);
        if !self.target_reader_ready() {
            self
        } else if count == 0 {
            State {
                target_ended: true,
                target_waiting: 0,
                target_retired: self.target_retired + self.target_waiting,
                ..self
            }
        } else {
            State {
                target_waiting: (self.target_waiting - 1) as nat,
                target_cursor: self.target_cursor + count,
                target_results: self.target_results.push(
                    self.target.subrange(
                        self.target_cursor as int,
                        (self.target_cursor + count) as int,
                    ),
                ),
                ..self
            }
        }
    }

    /// The state with one more buffer on its way to the source reader: in
    /// the reader's forward channel, or out of circulation if the reader
    /// has ended.
    pub open spec fn with_source_buffer(self) -> State {
        if self.source_ended {
            State { source_retired: self.source_retired + 1, ..self }
        } else {
            State { source_waiting: self.source_waiting + 1, ..self }
        }
    }

    /// The state with one more buffer on its way to the target reader.
    pub open spec fn with_target_buffer(self) -> State {
        if self.target_ended {
            State { target_retired: self.target_retired + 1, ..self }
        } else {
            State { target_waiting: self.target_waiting + 1, ..self }
        }
    }

    /// The orchestrator's turn: it takes the head of each result channel,
    /// nothing from a channel that is empty because its reader has ended.
    /// A pair that ends the streams stops the comparison, and what arrived
    /// with it leaves circulation. Any other pair is counted and moves the
    /// position by its length; its target buffer goes back to the target
    /// reader, and its source buffer goes back to the source reader if the
    /// blocks are equal, to the writer with the position if they differ.
    #[verifier::opaque]
    pub open spec fn orchestrator_turn(self) -> State {
        let s = head(self.source_results);
        let t = head(self.target_results);
        let taken = State {
            source_results: rest(self.source_results),
            target_results: rest(self.target_results),
            ..self
        };
        if !self.orchestrator_ready() {
            self
        } else if ends(s, t) {
            State {
                running: false,
                source_retired: self.source_retired + one_if(s is Some),
                target_retired: self.target_retired + one_if(t is Some),
                ..taken
            }
        } else if s->0 == t->0 {
            State {
                rounds: self.rounds + 1,
                position: self.position + s->0.len(),
                ..taken
            }.with_source_buffer().with_target_buffer()
        } else {
            State {
                rounds: self.rounds + 1,
                position: self.position + s->0.len(),
                differing: self.differing + 1,
                pending: self.pending.push(
                    WriteRequest { position: self.position, bytes: s->0 },
                ),
                ..taken
            }.with_target_buffer()
        }
    }

    /// The writer's turn: it commits the request that waited longest, logs
    /// it, and gives the buffer back to the source reader.
    #[verifier::opaque]
    pub open spec fn writer_turn(self) -> State {
        if !self.writer_ready() {
            self
        } else {
            let request = self.pending[0];
            State {
                target: patched(self.target, request.position as int, request.bytes),
                log: self.log.push(request),
                pending: self.pending.skip(1),
                ..self
            }.with_source_buffer()
        }
    }

    /// What is left to do, as a number that every turn of a ready task
    /// makes smaller.
    pub open spec fn work(self) -> int {
        3 * (self.source.len() - self.source_cursor) + 3 * (self.target.len()
            - self.target_cursor) + 2 * (self.source_results.len() + self.target_results.len())
            + self.pending.len() + one_if(!self.source_ended) + one_if(!self.target_ended)
            + one_if(self.running)
    }

    /// What holds of a stream's reader and result channel while pairs are
    /// compared, `k` pairs having been compared: the channel holds the
    /// stream's next blocks, from block `k` on, none of them empty; the
    /// reader stands where the block after them starts; and a reader that
    /// has ended found that block empty.
    pub open spec fn reader_on_track(
        stream: Seq<u8>,
        block_size: nat,
        k: nat,
        results: Seq<Seq<u8>>,
        cursor: nat,
        ended: bool,
    ) -> bool {
        &&& forall|i: int|
            0 <= i < results.len() ==> (#[trigger] results[i]) == block(
                stream,
                (k + i) as nat,
                block_size,
            ) && results[i].len() > 0
        &&& cursor == clip((k + results.len()) * block_size, stream.len())
        &&& ended ==> block(stream, k + results.len(), block_size).len() == 0
    }

    /// What holds of every state that the turns reach from a primed
    /// pipeline, `rounds` pairs having been compared.
    ///
    /// Each stream has its buffers, all of them in a channel or out of
    /// circulation. None of the compared pairs ended the streams, and the
    /// position is where they end. The pairs that differed are counted,
    /// and their writes, in order, are the log followed by the requests
    /// that wait. The target holds what the logged writes made of it.
    /// While pairs are compared, each reader is on track; afterwards, the
    /// next pair is one that ends the streams.
    pub open spec fn on_track(self) -> bool {
        let k = self.rounds;
        &&& self.per_stream() >= 1
        &&& self.source_waiting + self.source_results.len() + self.pending.len()
            + self.source_retired == self.per_stream()
        &&& self.target_waiting + self.target_results.len() + self.target_retired
            == self.per_stream()
        &&& self.source_ended ==> self.source_waiting == 0
        &&& self.target_ended ==> self.target_waiting == 0
        &&& self.running && !self.source_ended ==> self.source_retired == 0
        &&& self.running && !self.target_ended ==> self.target_retired == 0
        &&& self.source_cursor <= self.source.len()
        &&& self.target_cursor <= self.target.len()
        &&& self.target.len() == self.initial.len()
        &&& compared_through(self.source, self.initial, self.block_size, k)
        &&& self.position == clip(k * self.block_size, self.source.len())
        &&& self.differing == differing_blocks(self.source, self.initial, self.block_size, k)
        &&& self.log + self.pending == write_plan(self.source, self.initial, self.block_size, k)
        &&& self.target == applied(self.initial, self.log)
        &&& self.running ==> Self::reader_on_track(
            self.source,
            self.block_size,
            k,
            self.source_results,
            self.source_cursor,
            self.source_ended,
        )
        &&& self.running ==> Self::reader_on_track(
            self.initial,
            self.block_size,
            k,
            self.target_results,
            self.target_cursor,
            self.target_ended,
        )
        &&& !self.running ==> pair_ends(self.source, self.initial, k, self.block_size)
    }

    /// Whether the run is over: the comparison has stopped and no request
    /// waits.
    pub open spec fn finished(self) -> bool {
        !self.running && self.pending.len() == 0
    }
}

/// Where a reader on track stands, and what it reads next: the block
/// after those that wait in its result channel, which is all there is to
/// read at its cursor.
proof fn lemma_next_block(stream: Seq<u8>, block_size: nat, ahead: nat, cursor: nat)
    requires
        cursor == clip(ahead * block_size, stream.len()),
    ensures
        block(stream, ahead, block_size) == stream.subrange(
            cursor as int,
            (cursor + available(stream.len(), cursor, block_size)) as int,
        ),
        cursor + available(stream.len(), cursor, block_size) == clip(
            (ahead + 1) * block_size,
            stream.len(),
        ),
{
    assert((ahead + 1) * block_size == ahead * block_size + block_size) by (nonlinear_arith);
}

/// The logged writes of a state on track lie before the position, so the
/// target is as long as it was and holds its old bytes from the position
/// on; and the position is the same place in both streams, not past the
/// end of either.
proof fn lemma_target_beyond_position(state: State)
    requires
        state.on_track(),
    ensures
        state.target.len() == state.initial.len(),
        state.position == clip(state.rounds * state.block_size, state.initial.len()),
        state.target.skip(state.position as int) == state.initial.skip(state.position as int),
        forall|i: int|
            0 <= i < state.pending.len() ==> (#[trigger] state.pending[i]).position
                + state.pending[i].bytes.len() <= state.position,
{
    let plan = write_plan(state.source, state.initial, state.block_size, state.rounds);
    lemma_compared_prefix(state.source, state.initial, state.block_size, state.rounds);
    assert forall|i: int| 0 <= i < state.log.len() implies (#[trigger] state.log[i]).position
        + state.log[i].bytes.len() <= state.position by {
        assert(state.log[i] == plan[i]);
    }
    assert forall|i: int| 0 <= i < state.pending.len() implies (#[trigger] state.pending[i]).position
        + state.pending[i].bytes.len() <= state.position by {
        assert(state.pending[i] == plan[state.log.len() + i]);
    }
    lemma_applied_keeps_rest(state.initial, state.log, state.position);
}

impl State {
    /// A primed pipeline is on track and owns the buffers it was primed
    /// with.
    pub proof fn lemma_primed(
        source: Seq<u8>,
        target: Seq<u8>,
        block_size: nat,
        channel_capacity: nat,
    )
        requires
            channel_capacity >= 2,
        ensures
            State::primed(source, target, block_size, channel_capacity).on_track(),
            State::primed(source, target, block_size, channel_capacity).buffers()
                == 2 * (channel_capacity / 2),
    {
        let state = State::primed(source, target, block_size, channel_capacity);
        assert(0 * block_size == 0) by (nonlinear_arith);
        assert(state.log + state.pending =~= Seq::<WriteRequest>::empty());
    }

    /// The source reader's turn keeps the pipeline on track and its
    /// buffers as many as they were; if the reader was ready, less work is
    /// left.
    pub proof fn lemma_source_reader_turn(self)
        requires
            self.on_track(),
        ensures
            self.source_reader_turn().on_track(),
            self.source_reader_turn().buffers() == self.buffers(),
            self.source_reader_ready() ==> self.source_reader_turn().work() < self.work(),
            !self.source_reader_ready() ==> self.source_reader_turn() == self,
            self.source_reader_turn().same_run_as(self),
    {
        reveal(State::source_reader_turn);
        if self.source_reader_ready() && self.running {
            lemma_next_block(
                self.source,
                self.block_size,
                self.rounds + self.source_results.len(),
                self.source_cursor,
            );
        }
    }

    /// The target reader's turn keeps the pipeline on track and its
    /// buffers as many as they were; if the reader was ready, less work is
    /// left. What the reader finds at its cursor is what the target held
    /// there before the run: no write has touched it.
    pub proof fn lemma_target_reader_turn(self)
        requires
            self.on_track(),
        ensures
            self.target_reader_turn().on_track(),
            self.target_reader_turn().buffers() == self.buffers(),
            self.target_reader_ready() ==> self.target_reader_turn().work() < self.work(),
            !self.target_reader_ready() ==> self.target_reader_turn() == self,
            self.target_reader_turn().same_run_as(self),
            self.running && self.target_reader_ready() ==> {
                let count = available(self.target.len(), self.target_cursor, self.block_size);
                self.target.subrange(
                    self.target_cursor as int,
                    (self.target_cursor + count) as int,
                ) == self.initial.subrange(
                    self.target_cursor as int,
                    (self.target_cursor + count) as int,
                )
            },
    {
        reveal(State::target_reader_turn);
        if self.target_reader_ready() && self.running {
            let ahead = self.rounds + self.target_results.len();
            let count = available(self.target.len(), self.target_cursor, self.block_size);
            lemma_target_beyond_position(self);
            lemma_next_block(self.initial, self.block_size, ahead, self.target_cursor);
            assert(self.rounds * self.block_size <= ahead * self.block_size) by (nonlinear_arith)
                requires
                    self.rounds <= ahead,
            ;
            let from = self.position as int;
            let at = self.target_cursor as int;
            assert forall|i: int| at <= i < at + count implies self.target[i]
                == self.initial[i] by {
                assert(self.target.skip(from)[i - from] == self.initial.skip(from)[i - from]);
            }
            assert(self.target.subrange(at, at + count) =~= self.initial.subrange(at, at + count));
        }
    }

    /// The orchestrator's turn keeps the pipeline on track and its buffers
    /// as many as they were; if the orchestrator was ready, less work is
    /// left. The pair it takes is the next pair of blocks of the two
    /// streams, both from the same offset, and a pair that it compares
    /// lies inside both.
    pub proof fn lemma_orchestrator_turn(self)
        requires
            self.on_track(),
        ensures
            self.orchestrator_turn().on_track(),
            self.orchestrator_turn().buffers() == self.buffers(),
            self.orchestrator_ready() ==> self.orchestrator_turn().work() < self.work(),
            !self.orchestrator_ready() ==> self.orchestrator_turn() == self,
            self.orchestrator_turn().same_run_as(self),
            self.orchestrator_ready() ==> ends(
                head(self.source_results),
                head(self.target_results),
            ) == pair_ends(self.source, self.initial, self.rounds, self.block_size),
            self.orchestrator_ready() && !ends(
                head(self.source_results),
                head(self.target_results),
            ) ==> self.position + self.source_results[0].len() <= self.source.len(),
            self.orchestrator_ready() && self.source_results.len() > 0
                ==> self.source_results[0] == block(self.source, self.rounds, self.block_size),
            self.orchestrator_ready() && self.target_results.len() > 0
                ==> self.target_results[0] == block(self.initial, self.rounds, self.block_size),
    {
        reveal(State::orchestrator_turn);
        if self.orchestrator_ready() {
            let k = self.rounds;
            let s = head(self.source_results);
            let t = head(self.target_results);
            let next = self.orchestrator_turn();
            lemma_compared_prefix(self.source, self.initial, self.block_size, k);
            assert(s matches Some(b) ==> b == block(self.source, k, self.block_size)) by {
                if s is Some {
                    assert(self.source_results[0] == block(
                        self.source,
                        (k + 0) as nat,
                        self.block_size,
                    ));
                }
            }
            assert(t matches Some(b) ==> b == block(self.initial, k, self.block_size)) by {
                if t is Some {
                    assert(self.target_results[0] == block(
                        self.initial,
                        (k + 0) as nat,
                        self.block_size,
                    ));
                }
            }
            if !ends(s, t) {
                assert((k + 1) * self.block_size == k * self.block_size + self.block_size)
                    by (nonlinear_arith);
                assert forall|j: nat| j < k + 1 implies !pair_ends(
                    self.source,
                    self.initial,
                    j,
                    self.block_size,
                ) by {}
                assert(next.log + next.pending =~= write_plan(
                    self.source,
                    self.initial,
                    self.block_size,
                    k + 1,
                ));
                assert forall|i: int| 0 <= i < next.source_results.len() implies (
                #[trigger] next.source_results[i]) == block(
                    self.source,
                    (k + 1 + i) as nat,
                    self.block_size,
                ) && next.source_results[i].len() > 0 by {
                    assert(next.source_results[i] == self.source_results[i + 1]);
                }
                assert forall|i: int| 0 <= i < next.target_results.len() implies (
                #[trigger] next.target_results[i]) == block(
                    self.initial,
                    (k + 1 + i) as nat,
                    self.block_size,
                ) && next.target_results[i].len() > 0 by {
                    assert(next.target_results[i] == self.target_results[i + 1]);
                }
            }
        }
    }

    /// The writer's turn keeps the pipeline on track and its buffers as
    /// many as they were; if the writer was ready, less work is left. The
    /// request it commits lies inside the target, before the position.
    pub proof fn lemma_writer_turn(self)
        requires
            self.on_track(),
        ensures
            self.writer_turn().on_track(),
            self.writer_turn().buffers() == self.buffers(),
            self.writer_ready() ==> self.writer_turn().work() < self.work(),
            !self.writer_ready() ==> self.writer_turn() == self,
            self.writer_turn().same_run_as(self),
            self.writer_ready() ==> self.pending[0].position + self.pending[0].bytes.len()
                <= self.position <= self.target.len(),
    {
        reveal(State::writer_turn);
        if self.writer_ready() {
            let next = self.writer_turn();
            lemma_target_beyond_position(self);
            assert(next.log.drop_last() =~= self.log);
            assert(next.log + next.pending =~= self.log + self.pending);
        }
    }

    /// No channel of a pipeline on track ever holds more than one stream's
    /// buffers, which is at most half its capacity: a task that sends never
    /// finds its channel full.
    pub proof fn law_channels_never_fill(self)
        requires
            self.on_track(),
        ensures
            2 * self.per_stream() <= self.channel_capacity,
            self.source_waiting <= self.per_stream(),
            self.target_waiting <= self.per_stream(),
            self.source_results.len() <= self.per_stream(),
            self.target_results.len() <= self.per_stream(),
            self.pending.len() <= self.per_stream(),
    {
    }

    /// While pairs are compared, some task is ready: the pipeline cannot
    /// come to a halt with every task waiting for another.
    pub proof fn lemma_never_stuck(self)
        requires
            self.on_track(),
            self.running,
        ensures
            self.source_reader_ready() || self.target_reader_ready() || self.orchestrator_ready()
                || self.writer_ready(),
    {
    }

    /// Once the comparison has stopped and every request is committed, the
    /// state is the outcome that the two streams determine: the pairs
    /// compared and the pairs that differed are counted, the log holds the
    /// writes of the run, and the target is the synced target.
    pub proof fn lemma_finished(self)
        requires
            self.on_track(),
            self.finished(),
        ensures
            self.rounds == total_count(self.source, self.initial, self.block_size),
            self.differing == diff_count(self.source, self.initial, self.block_size),
            self.position == compared_bytes(self.source, self.initial, self.block_size),
            self.log == writes(self.source, self.initial, self.block_size),
            self.target == synced(self.source, self.initial, self.block_size),
    {
        lemma_compared_blocks_is_first_end(self.source, self.initial, self.block_size);
        let n = compared_blocks(self.source, self.initial, self.block_size);
        assert(self.rounds == n) by {
            if self.rounds < n {
                assert(!pair_ends(self.source, self.initial, self.rounds, self.block_size));
            } else if self.rounds > n {
                assert(!pair_ends(self.source, self.initial, n, self.block_size));
            }
        }
        lemma_compared_prefix(self.source, self.initial, self.block_size, n);
        lemma_applied_plan(self.source, self.initial, self.block_size, n);
        assert(self.log =~= self.log + self.pending);
    }
}

impl State {
    /// The state after each task has had one turn: the source reader,
    /// the target reader, the orchestrator, the writer.
    pub open spec fn cycle(self) -> State {
        self.source_reader_turn().target_reader_turn().orchestrator_turn().writer_turn()
    }

    /// While pairs are compared, one turn for each task keeps the pipeline
    /// on track and its buffers as many as they were, works on the same
    /// streams, and leaves less work.
    pub proof fn lemma_cycle(self)
        requires
            self.on_track(),
            self.running,
        ensures
            self.cycle().on_track(),
            self.cycle().buffers() == self.buffers(),
            self.cycle().work() < self.work(),
            self.cycle().same_run_as(self),
    {
        let read = self.source_reader_turn();
        let both_read = read.target_reader_turn();
        let decided = both_read.orchestrator_turn();
        self.lemma_never_stuck();
        self.lemma_source_reader_turn();
        read.lemma_target_reader_turn();
        both_read.lemma_orchestrator_turn();
        decided.lemma_writer_turn();
    }
}

/// A task of the pipeline.
#[derive(Clone, Copy, Debug, PartialEq, Eq, Structural)]
pub enum Task {
    SourceReader,
    TargetReader,
    Orchestrator,
    Writer,
}

impl State {
    /// Whether `task` can take its turn.
    pub open spec fn ready(self, task: Task) -> bool {
        match task {
            Task::SourceReader => self.source_reader_ready(),
            Task::TargetReader => self.target_reader_ready(),
            Task::Orchestrator => self.orchestrator_ready(),
            Task::Writer => self.writer_ready(),
        }
    }

    /// The state after `task` has had its turn.
    pub open spec fn turn(self, task: Task) -> State {
        match task {
            Task::SourceReader => self.source_reader_turn(),
            Task::TargetReader => self.target_reader_turn(),
            Task::Orchestrator => self.orchestrator_turn(),
            Task::Writer => self.writer_turn(),
        }
    }

    /// The state after the tasks have had their turns in the order that
    /// `schedule` gives.
    pub open spec fn after(self, schedule: Seq<Task>) -> State
        decreases schedule.len(),
    {
        if schedule.len() == 0 {
            self
        } else {
            self.after(schedule.drop_last()).turn(schedule.last())
        }
    }

    /// A turn of any task keeps the pipeline on track, on the same
    /// streams, and its buffers as many as they were. A task that was not
    /// ready changes nothing; one that was leaves less work.
    pub proof fn lemma_turn(self, task: Task)
        requires
            self.on_track(),
        ensures
            self.turn(task).on_track(),
            self.turn(task).same_run_as(self),
            self.turn(task).buffers() == self.buffers(),
            self.ready(task) ==> self.turn(task).work() < self.work(),
            !self.ready(task) ==> self.turn(task) == self,
    {
        match task {
            Task::SourceReader => self.lemma_source_reader_turn(),
            Task::TargetReader => self.lemma_target_reader_turn(),
            Task::Orchestrator => self.lemma_orchestrator_turn(),
            Task::Writer => self.lemma_writer_turn(),
        }
    }

    /// In whatever order the tasks take their turns, a primed pipeline
    /// stays on track and owns the buffers it was primed with, no more and
    /// no fewer. If the order brings the run to its end, the outcome is
    /// the one that the two streams determine.
    pub proof fn law_any_schedule(
        source: Seq<u8>,
        target: Seq<u8>,
        block_size: nat,
        channel_capacity: nat,
        schedule: Seq<Task>,
    )
        requires
            channel_capacity >= 2,
        ensures
            ({
                let end = State::primed(source, target, block_size, channel_capacity).after(
                    schedule,
                );
                &&& end.on_track()
                &&& end.source == source
                &&& end.initial == target
                &&& end.block_size == block_size
                &&& end.buffers() == 2 * (channel_capacity / 2)
                &&& end.finished() ==> {
                    &&& end.rounds == total_count(source, target, block_size)
                    &&& end.differing == diff_count(source, target, block_size)
                    &&& end.log == writes(source, target, block_size)
                    &&& end.target == synced(source, target, block_size)
                }
            }),
        decreases schedule.len(),
    {
        let start = State::primed(source, target, block_size, channel_capacity);
        if schedule.len() == 0 {
            State::lemma_primed(source, target, block_size, channel_capacity);
        } else {
            State::law_any_schedule(
                source,
                target,
                block_size,
                channel_capacity,
                schedule.drop_last(),
            );
            start.after(schedule.drop_last()).lemma_turn(schedule.last());
        }
        let end = start.after(schedule);
        if end.finished() {
            end.lemma_finished();
        }
    }
}

} // verus!
