use blocksync::model::Task;
use blocksync::orchestrator::Report;
use blocksync::pipeline::{run, Pipeline, Summary};

fn sync(source: &[u8], target: &[u8], block_size: usize) -> Summary {
    run(source.to_vec(), target.to_vec(), block_size, 8)
}

fn writes_of(summary: &Summary) -> Vec<(u64, Vec<u8>)> {
    summary.writes.iter().map(|w| (w.position, w.bytes.clone())).collect()
}

#[test]
fn three_blocks_with_the_middle_one_different() {
    let summary = sync(b"aaaabbbbcccc", b"aaaaxxxxcccc", 4);
    assert_eq!(summary.report.total_count, 3);
    assert_eq!(summary.report.diff_count, 1);
    assert_eq!(writes_of(&summary), vec![(4, b"bbbb".to_vec())]);
    assert_eq!(summary.target, b"aaaabbbbcccc".to_vec());
}

#[test]
fn empty_source_and_empty_target() {
    let summary = sync(b"", b"", 4);
    assert_eq!(summary.report, Report { total_count: 0, diff_count: 0, bytes: 0 });
    assert!(summary.writes.is_empty());
    assert!(summary.target.is_empty());
}

#[test]
fn empty_source_leaves_the_target_alone() {
    let summary = sync(b"", b"abcdefgh", 4);
    assert_eq!(summary.report, Report { total_count: 0, diff_count: 0, bytes: 0 });
    assert!(summary.writes.is_empty());
    assert_eq!(summary.target, b"abcdefgh".to_vec());
}

#[test]
fn identical_streams_are_never_written() {
    let data: Vec<u8> = (0..100u32).map(|i| (i * 7 % 251) as u8).collect();
    for block_size in [1usize, 3, 4, 7, 32, 100, 101, 4096] {
        let summary = sync(&data, &data, block_size);
        assert_eq!(summary.report.diff_count, 0);
        assert_eq!(summary.report.total_count, (100 + block_size as u64 - 1) / block_size as u64);
        assert_eq!(summary.report.bytes, 100);
        assert!(summary.writes.is_empty());
        assert_eq!(summary.target, data);
    }
}

#[test]
fn one_differing_block_is_written_once_at_its_offset() {
    let block_size = 8usize;
    let source: Vec<u8> = (0..70u32).map(|i| i as u8).collect();
    for k in 0..9usize {
        let mut target = source.clone();
        let start = k * block_size;
        let end = usize::min(start + block_size, source.len());
        target[end - 1] ^= 0xff;
        let summary = sync(&source, &target, block_size);
        assert_eq!(summary.report.total_count, 9);
        assert_eq!(summary.report.diff_count, 1);
        assert_eq!(writes_of(&summary), vec![(start as u64, source[start..end].to_vec())]);
        assert_eq!(summary.target, source);
    }
}

#[test]
fn last_block_of_equally_long_streams_may_be_shorter() {
    let summary = sync(b"aaaabbbbcc", b"aaaabbbbcd", 4);
    assert_eq!(summary.report, Report { total_count: 3, diff_count: 1, bytes: 10 });
    assert_eq!(writes_of(&summary), vec![(8, b"cc".to_vec())]);
    assert_eq!(summary.target, b"aaaabbbbcc".to_vec());
}

#[test]
fn shorter_source_ends_the_run_at_the_first_unequal_pair() {
    let summary = sync(b"aaaabbbbcc", b"xxxxbbbbyyyy", 4);
    assert_eq!(summary.report, Report { total_count: 2, diff_count: 1, bytes: 8 });
    assert_eq!(writes_of(&summary), vec![(0, b"aaaa".to_vec())]);
    assert_eq!(summary.target, b"aaaabbbbyyyy".to_vec());
}

#[test]
fn shorter_target_ends_the_run_at_the_first_unequal_pair() {
    let summary = sync(b"aaaabbbbcccc", b"aaaaxxxxyy", 4);
    assert_eq!(summary.report, Report { total_count: 2, diff_count: 1, bytes: 8 });
    assert_eq!(writes_of(&summary), vec![(4, b"bbbb".to_vec())]);
    assert_eq!(summary.target, b"aaaabbbbyy".to_vec());
}

#[test]
fn streams_that_differ_by_whole_blocks_end_at_the_shorter_ones_end() {
    let summary = sync(b"aaaabbbb", b"aaaaxxxxccccdddd", 4);
    assert_eq!(summary.report, Report { total_count: 2, diff_count: 1, bytes: 8 });
    assert_eq!(writes_of(&summary), vec![(4, b"bbbb".to_vec())]);
    assert_eq!(summary.target, b"aaaabbbbccccdddd".to_vec());
}

#[test]
fn no_write_reaches_past_the_shorter_stream() {
    let source: Vec<u8> = vec![1; 37];
    let target: Vec<u8> = vec![2; 41];
    let summary = sync(&source, &target, 5);
    assert_eq!(summary.report.total_count, 7);
    assert_eq!(summary.report.diff_count, 7);
    for w in &summary.writes {
        assert!(w.position as usize + w.bytes.len() <= 37);
    }
    assert_eq!(&summary.target[..35], &source[..35]);
    assert_eq!(&summary.target[35..], &target[35..]);
}

#[test]
fn second_run_finds_nothing_to_write() {
    let cases: [(&[u8], &[u8]); 4] = [
        (b"aaaabbbbcccc", b"aaaaxxxxcccc"),
        (b"aaaabbbbcc", b"xxxxbbbbyyyy"),
        (b"aaaabbbbcccc", b"zzzzzzzzzz"),
        (b"abcdefghij", b"0123456789"),
    ];
    for (source, target) in cases {
        let first = sync(source, target, 4);
        let second = sync(source, &first.target, 4);
        assert_eq!(second.report.total_count, first.report.total_count);
        assert_eq!(second.report.diff_count, 0);
        assert!(second.writes.is_empty());
        assert_eq!(second.target, first.target);
    }
}

#[test]
fn every_differing_block_is_written_in_stream_order() {
    let summary = sync(b"aaaabbbbccccdd", b"xxxxbbbbyyyyzz", 4);
    assert_eq!(summary.report, Report { total_count: 4, diff_count: 3, bytes: 14 });
    assert_eq!(
        writes_of(&summary),
        vec![(0, b"aaaa".to_vec()), (8, b"cccc".to_vec()), (12, b"dd".to_vec())]
    );
    assert_eq!(summary.target, b"aaaabbbbccccdd".to_vec());
}

#[test]
fn block_larger_than_the_streams() {
    let summary = sync(b"abc", b"abd", 4096);
    assert_eq!(summary.report, Report { total_count: 1, diff_count: 1, bytes: 3 });
    assert_eq!(writes_of(&summary), vec![(0, b"abc".to_vec())]);
    assert_eq!(summary.target, b"abc".to_vec());
}

#[test]
fn block_size_zero_compares_nothing() {
    let summary = sync(b"abc", b"xyz", 0);
    assert_eq!(summary.report, Report { total_count: 0, diff_count: 0, bytes: 0 });
    assert!(summary.writes.is_empty());
    assert_eq!(summary.target, b"xyz".to_vec());
}

#[test]
fn buffers_given_up_are_the_buffers_made() {
    for capacity in [2usize, 3, 8, 9, 16] {
        let summary = run(b"aaaabbbbcccc".to_vec(), b"aaaaxxxxcc".to_vec(), 4, capacity);
        assert_eq!(summary.buffers, 2 * (capacity / 2));
    }
}

#[test]
fn buffer_count_stays_the_same_turn_after_turn() {
    let source = b"aaaabbbbccccddddee".to_vec();
    let target = b"aaaaxxxxccccyyyyee".to_vec();
    let mut pipeline = Pipeline::new(source, target, 4, 8);
    assert_eq!(pipeline.buffer_count(), 8);
    while pipeline.is_running() {
        pipeline.source_reader_turn();
        assert_eq!(pipeline.buffer_count(), 8);
        pipeline.target_reader_turn();
        assert_eq!(pipeline.buffer_count(), 8);
        pipeline.orchestrator_turn();
        assert_eq!(pipeline.buffer_count(), 8);
        pipeline.writer_turn();
        assert_eq!(pipeline.buffer_count(), 8);
    }
    let summary = pipeline.finish();
    assert_eq!(summary.buffers, 8);
    assert_eq!(summary.report, Report { total_count: 5, diff_count: 2, bytes: 18 });
    assert_eq!(summary.target, b"aaaabbbbccccddddee".to_vec());
}

#[test]
fn a_task_with_nothing_to_take_does_nothing() {
    let mut pipeline = Pipeline::new(b"aaaabbbb".to_vec(), b"aaaaxxxx".to_vec(), 4, 4);
    assert!(!pipeline.orchestrator_turn());
    assert!(!pipeline.writer_turn());
    assert!(pipeline.source_reader_turn());
    assert!(!pipeline.orchestrator_turn());
    assert!(pipeline.target_reader_turn());
    assert!(pipeline.orchestrator_turn());
    assert!(!pipeline.writer_turn());
    assert_eq!(pipeline.buffer_count(), 4);
}

#[test]
fn a_reader_runs_ahead_as_far_as_its_buffers_reach() {
    let source: Vec<u8> = (0..64u8).collect();
    let mut pipeline = Pipeline::new(source.clone(), source, 4, 8);
    for _ in 0..4 {
        assert!(pipeline.source_reader_turn());
    }
    assert!(!pipeline.source_reader_turn());
    assert!(pipeline.target_reader_turn());
    assert!(pipeline.orchestrator_turn());
    assert!(pipeline.source_reader_turn());
    assert!(!pipeline.source_reader_turn());
    assert_eq!(pipeline.buffer_count(), 8);
}

#[test]
fn writes_wait_for_the_writer_and_are_committed_at_shutdown() {
    let mut pipeline = Pipeline::new(b"aaaabbbb".to_vec(), b"xxxxyyyy".to_vec(), 4, 8);
    while pipeline.is_running() {
        pipeline.source_reader_turn();
        pipeline.target_reader_turn();
        pipeline.orchestrator_turn();
    }
    let summary = pipeline.finish();
    assert_eq!(summary.report, Report { total_count: 2, diff_count: 2, bytes: 8 });
    assert_eq!(writes_of(&summary), vec![(0, b"aaaa".to_vec()), (4, b"bbbb".to_vec())]);
    assert_eq!(summary.target, b"aaaabbbb".to_vec());
    assert_eq!(summary.buffers, 8);
}

#[test]
fn any_order_of_turns_gives_the_same_outcome() {
    let cases: [(&[u8], &[u8]); 5] = [
        (b"aaaabbbbccccddddee", b"aaaaxxxxccccyyyyee"),
        (b"aaaabbbbcc", b"xxxxbbbbyyyy"),
        (b"aaaabbbbcccc", b"zzzzzzzzzz"),
        (b"abcdefghijklmnopqrstuvwxyz", b"ABCDEFGHIJKLMNOPQRSTUVWXYZ"),
        (b"", b"abc"),
    ];
    for (source, target) in cases {
        for capacity in [2usize, 5, 8] {
            let expected = run(source.to_vec(), target.to_vec(), 4, capacity);
            for seed in 1..40u64 {
                let mut pipeline = Pipeline::new(source.to_vec(), target.to_vec(), 4, capacity);
                let mut state = seed;
                let mut steps = 0;
                while pipeline.is_running() {
                    state = state
                        .wrapping_mul(6364136223846793005)
                        .wrapping_add(1442695040888963407);
                    let task = match (state >> 33) % 4 {
                        0 => Task::SourceReader,
                        1 => Task::TargetReader,
                        2 => Task::Orchestrator,
                        _ => Task::Writer,
                    };
                    pipeline.turn(task);
                    assert_eq!(pipeline.buffer_count(), 2 * (capacity / 2));
                    steps += 1;
                    assert!(steps < 10_000);
                }
                let summary = pipeline.finish();
                assert_eq!(summary.report, expected.report);
                assert_eq!(summary.target, expected.target);
                assert_eq!(writes_of(&summary), writes_of(&expected));
                assert_eq!(summary.buffers, expected.buffers);
            }
        }
    }
}

#[test]
fn smallest_pipeline_with_one_buffer_for_each_stream() {
    let summary = run(b"aaaabbbbcccc".to_vec(), b"xxxxbbbbyyyy".to_vec(), 4, 2);
    assert_eq!(summary.report, Report { total_count: 3, diff_count: 2, bytes: 12 });
    assert_eq!(summary.target, b"aaaabbbbcccc".to_vec());
    assert_eq!(summary.buffers, 2);
}

#[test]
fn empty_target_is_left_empty() {
    let summary = sync(b"abcdefgh", b"", 4);
    assert_eq!(summary.report, Report { total_count: 0, diff_count: 0, bytes: 0 });
    assert!(summary.writes.is_empty());
    assert!(summary.target.is_empty());
}

/// What a plain loop over the blocks makes of the two streams.
fn by_plain_loop(source: &[u8], target: &[u8], block_size: usize) -> (Report, Vec<u8>) {
    let mut patched = target.to_vec();
    let mut report = Report { total_count: 0, diff_count: 0, bytes: 0 };
    let mut at = 0;
    loop {
        let s = &source[at..usize::min(at + block_size, source.len())];
        let t = &target[usize::min(at, target.len())..usize::min(at + block_size, target.len())];
        if s.is_empty() || t.is_empty() || s.len() != t.len() {
            return (report, patched);
        }
        report.total_count += 1;
        if s != t {
            report.diff_count += 1;
            patched[at..at + s.len()].copy_from_slice(s);
        }
        at += s.len();
        report.bytes = at as u64;
    }
}

#[test]
fn run_agrees_with_a_plain_loop_over_the_blocks() {
    let mut state: u64 = 0x2545f4914f6cdd1d;
    let mut next = move |bound: u64| {
        state = state.wrapping_mul(6364136223846793005).wrapping_add(1442695040888963407);
        (state >> 33) % bound
    };
    for _ in 0..300 {
        let source_len = next(40) as usize;
        let target_len = if next(3) == 0 { next(40) as usize } else { source_len };
        let source: Vec<u8> = (0..source_len).map(|_| next(3) as u8).collect();
        let target: Vec<u8> = (0..target_len)
            .map(|i| if i < source_len && next(4) != 0 { source[i] } else { next(3) as u8 })
            .collect();
        let block_size = next(9) as usize;
        let capacity = 2 + next(6) as usize;
        let summary = run(source.clone(), target.clone(), block_size, capacity);
        let (report, patched) = by_plain_loop(&source, &target, block_size);
        assert_eq!(summary.report, report);
        assert_eq!(summary.target, patched);
        assert_eq!(summary.writes.len() as u64, report.diff_count);
        assert_eq!(summary.buffers, 2 * (capacity / 2));
    }
}
