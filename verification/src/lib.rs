//! Block-wise synchronisation of a target byte stream to a source byte
//! stream, writing only the blocks that differ.
//!
//! Two readers fill buffers with the blocks of the two streams, an
//! orchestrator compares the blocks pair by pair, and a writer commits the
//! source's block wherever a pair differs. The buffers are few and travel
//! in a circle through bounded channels.
//!
//! - [`buffer`]: the buffer.
//! - [`reader`], [`writer`], [`orchestrator`], [`probe`]: what each task
//!   decides, as a function from what happened to what to do next. The
//!   caller performs the reads, the writes and the waiting.
//! - [`error`]: the fatal conditions.
//! - [`stream`]: what a run over two streams yields, stated over the
//!   streams alone.
//! - [`model`]: the pipeline as a state machine, and what holds of it in
//!   whatever order the tasks act.
//! - [`channel`], [`memory`], [`pipeline`]: the pipeline on streams held in
//!   memory.

pub mod buffer;
pub mod channel;
pub mod error;
pub mod memory;
pub mod model;
pub mod orchestrator;
pub mod pipeline;
pub mod probe;
pub mod reader;
pub mod stream;
pub mod writer;
