//! The step functions driven the way a program drives them: every task
//! performs one action at a time and may have to wait on a channel.

use blocksync::buffer::Buf;
use blocksync::error::SyncError;
use blocksync::orchestrator::{Decision, Orchestrator, Phase, Report};
use blocksync::pipeline::run;
use blocksync::reader::{Reader, ReaderAction, ReaderEvent};
use blocksync::writer::{WriterAction, WriterEvent};
use std::collections::VecDeque;

/// A bounded queue with as many senders as were declared and one receiver.
struct Chan<T> {
    queue: VecDeque<T>,
    capacity: usize,
    senders: usize,
    receiver: bool,
}

enum Sent<T> {
    Done,
    Wait(T),
    Closed,
}

enum Received<T> {
    Item(T),
    Wait,
    Closed,
}

impl<T> Chan<T> {
    fn new(capacity: usize, senders: usize) -> Chan<T> {
        Chan { queue: VecDeque::new(), capacity, senders, receiver: true }
    }

    fn send(&mut self, item: T) -> Sent<T> {
        if !self.receiver {
            Sent::Closed
        } else if self.queue.len() == self.capacity {
            Sent::Wait(item)
        } else {
            self.queue.push_back(item);
            Sent::Done
        }
    }

    fn recv(&mut self) -> Received<T> {
        match self.queue.pop_front() {
            Some(item) => Received::Item(item),
            None if self.senders == 0 => Received::Closed,
            None => Received::Wait,
        }
    }
}

/// A file in memory on which chosen operations fail.
#[derive(Default)]
struct MemFile {
    bytes: Vec<u8>,
    cursor: usize,
    read_fails_at: Option<usize>,
    seek_fails_at: Option<u64>,
    write_fails_at: Option<usize>,
    write_is_short_at: Option<usize>,
}

impl MemFile {
    fn holding(bytes: &[u8]) -> MemFile {
        MemFile { bytes: bytes.to_vec(), ..MemFile::default() }
    }

    fn read(&mut self, storage: &mut [u8]) -> Result<usize, ()> {
        if self.read_fails_at == Some(self.cursor) {
            return Err(());
        }
        let count = usize::min(storage.len(), self.bytes.len() - self.cursor);
        storage[..count].copy_from_slice(&self.bytes[self.cursor..self.cursor + count]);
        self.cursor += count;
        Ok(count)
    }

    fn seek(&mut self, position: u64) -> Result<(), ()> {
        if self.seek_fails_at == Some(position) {
            return Err(());
        }
        self.cursor = position as usize;
        Ok(())
    }

    fn write(&mut self, bytes: &[u8]) -> Result<usize, ()> {
        if self.write_fails_at == Some(self.cursor) {
            return Err(());
        }
        let mut count = bytes.len();
        if self.write_is_short_at == Some(self.cursor) {
            count /= 2;
        }
        self.bytes[self.cursor..self.cursor + count].copy_from_slice(&bytes[..count]);
        self.cursor += count;
        Ok(count)
    }
}

struct ReaderTask {
    reader: Reader,
    file: MemFile,
    action: Option<ReaderAction>,
    outcome: Option<Result<(), SyncError>>,
}

impl ReaderTask {
    fn on(file: MemFile) -> ReaderTask {
        ReaderTask {
            reader: Reader::new(),
            file,
            action: Some(ReaderAction::Receive),
            outcome: None,
        }
    }

    fn end(&mut self, outcome: Result<(), SyncError>, inbound: &mut Chan<Buf>, outbound: &mut Chan<Buf>) {
        self.outcome = Some(outcome);
        inbound.receiver = false;
        outbound.senders -= 1;
    }

    /// Performs the pending action if it does not have to wait.
    fn poll(&mut self, inbound: &mut Chan<Buf>, outbound: &mut Chan<Buf>) -> bool {
        let Some(action) = self.action.take() else { return false };
        let event = match action {
            ReaderAction::Receive => match inbound.recv() {
                Received::Item(buf) => ReaderEvent::Received(buf),
                Received::Closed => ReaderEvent::InboundClosed,
                Received::Wait => {
                    self.action = Some(ReaderAction::Receive);
                    return false;
                }
            },
            ReaderAction::Read(mut buf) => match self.file.read(&mut buf.data) {
                Ok(count) => ReaderEvent::ReadDone { buf, count },
                Err(()) => ReaderEvent::ReadFailed(buf),
            },
            ReaderAction::Send(buf) => match outbound.send(buf) {
                Sent::Done => ReaderEvent::Sent,
                Sent::Closed => ReaderEvent::SendFailed,
                Sent::Wait(buf) => {
                    self.action = Some(ReaderAction::Send(buf));
                    return false;
                }
            },
            ReaderAction::EndOfStream(_) | ReaderAction::Stop => {
                self.end(Ok(()), inbound, outbound);
                return true;
            }
            ReaderAction::Fail { error, .. } => {
                self.end(Err(error), inbound, outbound);
                return true;
            }
        };
        self.action = Some(self.reader.step(event));
        true
    }
}

struct WriterTask {
    file: MemFile,
    action: Option<WriterAction>,
    outcome: Option<Result<(), SyncError>>,
    writes: Vec<(u64, Vec<u8>)>,
}

impl WriterTask {
    fn on(file: MemFile) -> WriterTask {
        WriterTask { file, action: Some(WriterAction::Receive), outcome: None, writes: Vec::new() }
    }

    fn end(
        &mut self,
        outcome: Result<(), SyncError>,
        inbound: &mut Chan<(u64, Buf)>,
        outbound: &mut Chan<Buf>,
    ) {
        self.outcome = Some(outcome);
        inbound.receiver = false;
        outbound.senders -= 1;
    }

    fn poll(&mut self, inbound: &mut Chan<(u64, Buf)>, outbound: &mut Chan<Buf>) -> bool {
        let Some(action) = self.action.take() else { return false };
        let event = match action {
            WriterAction::Receive => match inbound.recv() {
                Received::Item((position, buf)) => WriterEvent::Request { position, buf },
                Received::Closed => WriterEvent::InboundClosed,
                Received::Wait => {
                    self.action = Some(WriterAction::Receive);
                    return false;
                }
            },
            WriterAction::Seek { position, buf } => match self.file.seek(position) {
                Ok(()) => WriterEvent::SeekDone { position, buf },
                Err(()) => WriterEvent::SeekFailed { position, buf },
            },
            WriterAction::Write { position, buf } => match self.file.write(buf.as_slice()) {
                Ok(written) => {
                    self.writes.push((position, buf.as_slice()[..written].to_vec()));
                    WriterEvent::WriteDone { position, buf, written }
                }
                Err(()) => WriterEvent::WriteFailed { position, buf },
            },
            WriterAction::Return(buf) => match outbound.send(buf) {
                Sent::Done => WriterEvent::Returned,
                Sent::Closed => WriterEvent::ReturnFailed,
                Sent::Wait(buf) => {
                    self.action = Some(WriterAction::Return(buf));
                    return false;
                }
            },
            WriterAction::Stop => {
                self.end(Ok(()), inbound, outbound);
                return true;
            }
            WriterAction::Fail { error, .. } => {
                self.end(Err(error), inbound, outbound);
                return true;
            }
        };
        self.action = Some(blocksync::writer::step(event));
        true
    }
}

enum Parcel {
    ToSource(Buf),
    ToTarget(Buf),
    ToWriter(u64, Buf),
}

struct Outcome {
    report: Result<Report, SyncError>,
    target: Vec<u8>,
    writes: Vec<(u64, Vec<u8>)>,
}

/// Runs the four tasks in turn, one action each, until the orchestrator has
/// reported. Panics if a whole turn passes in which no task could act.
fn drive(source: MemFile, target_reads: MemFile, target_writes: MemFile, block_size: usize, capacity: usize) -> Outcome {
    let mut src_fw: Chan<Buf> = Chan::new(capacity, 2);
    let mut src_bk: Chan<Buf> = Chan::new(capacity, 1);
    let mut tgt_fw: Chan<Buf> = Chan::new(capacity, 1);
    let mut tgt_bk: Chan<Buf> = Chan::new(capacity, 1);
    let mut requests: Chan<(u64, Buf)> = Chan::new(capacity, 1);

    let mut source_task = ReaderTask::on(source);
    let mut target_task = ReaderTask::on(target_reads);
    let mut writer_task = WriterTask::on(target_writes);

    let mut orchestrator = Orchestrator::new(block_size, capacity);
    let (for_source, for_target) = orchestrator.prime();
    let mut outbox: VecDeque<Parcel> = VecDeque::new();
    outbox.extend(for_source.into_iter().map(Parcel::ToSource));
    outbox.extend(for_target.into_iter().map(Parcel::ToTarget));
    let mut from_source: Option<Option<Buf>> = None;
    let mut from_target: Option<Option<Buf>> = None;
    let mut hung_up = false;

    loop {
        let mut acted = false;
        acted |= source_task.poll(&mut src_fw, &mut src_bk);
        acted |= target_task.poll(&mut tgt_fw, &mut tgt_bk);
        acted |= writer_task.poll(&mut requests, &mut src_fw);

        if let Some(parcel) = outbox.pop_front() {
            let waiting = match parcel {
                Parcel::ToSource(buf) => match src_fw.send(buf) {
                    Sent::Wait(buf) => Some(Parcel::ToSource(buf)),
                    _ => None,
                },
                Parcel::ToTarget(buf) => match tgt_fw.send(buf) {
                    Sent::Wait(buf) => Some(Parcel::ToTarget(buf)),
                    _ => None,
                },
                Parcel::ToWriter(position, buf) => match requests.send((position, buf)) {
                    Sent::Wait((position, buf)) => Some(Parcel::ToWriter(position, buf)),
                    Sent::Closed => {
                        if orchestrator.phase == Phase::Running {
                            orchestrator.on_writer_gone();
                        }
                        None
                    }
                    Sent::Done => None,
                },
            };
            match waiting {
                Some(parcel) => outbox.push_front(parcel),
                None => acted = true,
            }
        } else if orchestrator.phase == Phase::Running {
            if from_source.is_none() {
                match src_bk.recv() {
                    Received::Item(buf) => from_source = Some(Some(buf)),
                    Received::Closed => from_source = Some(None),
                    Received::Wait => {}
                }
                acted |= from_source.is_some();
            }
            if from_target.is_none() {
                match tgt_bk.recv() {
                    Received::Item(buf) => from_target = Some(Some(buf)),
                    Received::Closed => from_target = Some(None),
                    Received::Wait => {}
                }
                acted |= from_target.is_some();
            }
            if from_source.is_some() && from_target.is_some() {
                let (s, t) = (from_source.take().unwrap(), from_target.take().unwrap());
                match orchestrator.on_pair(s, t) {
                    Decision::Recycle { source, target } => {
                        outbox.push_back(Parcel::ToSource(source));
                        outbox.push_back(Parcel::ToTarget(target));
                    }
                    Decision::Rewrite { position, source, target } => {
                        outbox.push_back(Parcel::ToWriter(position, source));
                        outbox.push_back(Parcel::ToTarget(target));
                    }
                    Decision::Drain { .. } => {}
                }
                acted = true;
            }
        } else if !hung_up {
            src_fw.senders -= 1;
            tgt_fw.senders -= 1;
            requests.senders -= 1;
            src_bk.receiver = false;
            tgt_bk.receiver = false;
            hung_up = true;
            acted = true;
        } else if let (Some(s), Some(t), Some(w)) =
            (source_task.outcome, target_task.outcome, writer_task.outcome)
        {
            let report = orchestrator.on_drained(s.err(), t.err(), w.err());
            assert_eq!(orchestrator.phase, Phase::Done);
            return Outcome {
                report,
                target: writer_task.file.bytes,
                writes: writer_task.writes,
            };
        }
        assert!(acted, "no task can act: the pipeline hangs");
    }
}

fn drive_plain(source: &[u8], target: &[u8], block_size: usize, capacity: usize) -> Outcome {
    drive(
        MemFile::holding(source),
        MemFile::holding(target),
        MemFile::holding(target),
        block_size,
        capacity,
    )
}

#[test]
fn driven_tasks_agree_with_the_run_in_memory() {
    let cases: [(&[u8], &[u8]); 7] = [
        (b"aaaabbbbcccc", b"aaaaxxxxcccc"),
        (b"", b""),
        (b"aaaabbbbcc", b"xxxxbbbbyyyy"),
        (b"aaaabbbbcccc", b"zzzzzzzzzz"),
        (b"abcdefghijklmnopqrstuvwxyz", b"ABCDEFGHIJKLMNOPQRSTUVWXYZ"),
        (b"abcdefghij", b"abcdefghij"),
        (b"abc", b""),
    ];
    for (source, target) in cases {
        for block_size in [1usize, 3, 4, 64] {
            for capacity in [2usize, 3, 8] {
                let driven = drive_plain(source, target, block_size, capacity);
                let summary = run(source.to_vec(), target.to_vec(), block_size, capacity);
                assert_eq!(driven.report, Ok(summary.report));
                assert_eq!(driven.target, summary.target);
                let logged: Vec<(u64, Vec<u8>)> =
                    summary.writes.iter().map(|w| (w.position, w.bytes.clone())).collect();
                assert_eq!(driven.writes, logged);
            }
        }
    }
}

#[test]
fn queued_writes_are_committed_after_the_source_reader_has_ended() {
    let driven = drive_plain(b"aaaabbbb", b"xxxxyyyy", 4, 16);
    assert_eq!(driven.report, Ok(Report { total_count: 2, diff_count: 2, bytes: 8 }));
    assert_eq!(driven.target, b"aaaabbbb".to_vec());
}

#[test]
fn failed_source_read_ends_the_run_with_its_offset() {
    let mut source = MemFile::holding(b"aaaabbbbcccc");
    source.read_fails_at = Some(8);
    let target = b"aaaaxxxxcccc";
    let driven = drive(source, MemFile::holding(target), MemFile::holding(target), 4, 8);
    assert_eq!(driven.report, Err(SyncError::Read { offset: 8 }));
}

#[test]
fn failed_target_read_ends_the_run_with_its_offset() {
    let mut target_reads = MemFile::holding(b"aaaaxxxxcccc");
    target_reads.read_fails_at = Some(4);
    let driven = drive(
        MemFile::holding(b"aaaabbbbcccc"),
        target_reads,
        MemFile::holding(b"aaaaxxxxcccc"),
        4,
        8,
    );
    assert_eq!(driven.report, Err(SyncError::Read { offset: 4 }));
    assert_eq!(driven.target, b"aaaaxxxxcccc".to_vec());
}

#[test]
fn short_write_ends_the_run_and_is_not_resumed() {
    let mut target_writes = MemFile::holding(b"aaaaxxxxcccc");
    target_writes.write_is_short_at = Some(4);
    let driven = drive(
        MemFile::holding(b"aaaabbbbcccc"),
        MemFile::holding(b"aaaaxxxxcccc"),
        target_writes,
        4,
        8,
    );
    assert_eq!(
        driven.report,
        Err(SyncError::ShortWrite { position: 4, expected: 4, written: 2 })
    );
    assert_eq!(driven.target, b"aaaabbxxcccc".to_vec());
}

#[test]
fn failed_seek_ends_the_run() {
    let mut target_writes = MemFile::holding(b"xxxxyyyyzzzz");
    target_writes.seek_fails_at = Some(4);
    let driven = drive(
        MemFile::holding(b"aaaabbbbcccc"),
        MemFile::holding(b"xxxxyyyyzzzz"),
        target_writes,
        4,
        8,
    );
    assert_eq!(driven.report, Err(SyncError::Seek { position: 4 }));
    assert_eq!(driven.target, b"aaaayyyyzzzz".to_vec());
}

#[test]
fn failed_write_ends_the_run() {
    let mut target_writes = MemFile::holding(b"xxxxyyyyzzzz");
    target_writes.write_fails_at = Some(0);
    let driven = drive(
        MemFile::holding(b"aaaabbbbcccc"),
        MemFile::holding(b"xxxxyyyyzzzz"),
        target_writes,
        4,
        8,
    );
    assert_eq!(driven.report, Err(SyncError::Write { position: 0 }));
    assert_eq!(driven.target, b"xxxxyyyyzzzz".to_vec());
}

#[test]
fn source_error_is_reported_before_a_writer_error() {
    let mut source = MemFile::holding(b"aaaabbbbcccc");
    source.read_fails_at = Some(8);
    let mut target_writes = MemFile::holding(b"xxxxyyyyzzzz");
    target_writes.write_fails_at = Some(0);
    let driven = drive(source, MemFile::holding(b"xxxxyyyyzzzz"), target_writes, 4, 8);
    assert_eq!(driven.report, Err(SyncError::Read { offset: 8 }));
}
