use rolling_search::clock::{saturate, timed};
use rolling_search::{partition, schedule, Chunk, ChunkPolicy, Scheduler};

fn chunk(start: usize, end: usize) -> Chunk {
    Chunk { start, end }
}

fn assert_tiles(chunks: &[Chunk], total: usize) {
    let mut at = 0;
    for c in chunks {
        assert_eq!(c.start, at);
        assert!(c.start < c.end);
        at = c.end;
    }
    assert_eq!(at, total);
}

#[test]
fn fixed_blocks_with_a_short_last_one() {
    assert_eq!(
        partition(10, ChunkPolicy::FixedSize(3)),
        vec![chunk(0, 3), chunk(3, 6), chunk(6, 9), chunk(9, 10)]
    );
    assert_eq!(partition(6, ChunkPolicy::FixedSize(3)), vec![chunk(0, 3), chunk(3, 6)]);
    assert_eq!(partition(2, ChunkPolicy::FixedSize(3)), vec![chunk(0, 2)]);
}

#[test]
fn nothing_to_partition() {
    assert_eq!(partition(0, ChunkPolicy::FixedSize(3)), vec![]);
    assert_eq!(partition(0, ChunkPolicy::TimeBudget(5000)), vec![]);
    assert_eq!(partition(0, ChunkPolicy::WorkStealing(4)), vec![]);
}

#[test]
fn block_size_zero_is_read_as_one() {
    assert_eq!(
        partition(3, ChunkPolicy::FixedSize(0)),
        vec![chunk(0, 1), chunk(1, 2), chunk(2, 3)]
    );
    assert_eq!(ChunkPolicy::FixedSize(0).initial_size(), 1);
    assert_eq!(ChunkPolicy::WorkStealing(0).initial_size(), 1);
}

#[test]
fn initial_sizes() {
    assert_eq!(ChunkPolicy::FixedSize(8).initial_size(), 8);
    assert_eq!(ChunkPolicy::WorkStealing(8).initial_size(), 8);
    assert_eq!(ChunkPolicy::TimeBudget(5000).initial_size(), 1);
}

#[test]
fn every_partition_tiles() {
    for total in 0..40 {
        for n in 0..12 {
            assert_tiles(&partition(total, ChunkPolicy::FixedSize(n)), total);
            assert_tiles(&partition(total, ChunkPolicy::WorkStealing(n)), total);
        }
        assert_tiles(&partition(total, ChunkPolicy::TimeBudget(1)), total);
    }
    assert_tiles(&partition(usize::MAX, ChunkPolicy::FixedSize(usize::MAX / 3)), usize::MAX);
}

#[test]
fn scheduler_hands_out_front_to_back() {
    let mut s = Scheduler::new(5, ChunkPolicy::FixedSize(2));
    assert_eq!(s.position(), 0);
    assert_eq!(s.size(), 2);
    assert_eq!(s.next_chunk(), Some(chunk(0, 2)));
    assert_eq!(s.position(), 2);
    assert_eq!(s.next_chunk(), Some(chunk(2, 4)));
    assert_eq!(s.next_chunk(), Some(chunk(4, 5)));
    assert_eq!(s.position(), 5);
    assert_eq!(s.next_chunk(), None);
    assert_eq!(s.next_chunk(), None);
    assert_eq!(s.position(), 5);
}

#[test]
fn time_budget_doubles_fast_chunks() {
    let mut s = Scheduler::new(1000, ChunkPolicy::TimeBudget(100));
    assert_eq!(s.size(), 1);
    s.observe(0);
    assert_eq!(s.size(), 2);
    s.observe(50);
    assert_eq!(s.size(), 4);
    s.observe(51);
    assert_eq!(s.size(), 4);
}

#[test]
fn time_budget_halves_slow_chunks() {
    let mut s = Scheduler::new(1000, ChunkPolicy::TimeBudget(100));
    for _ in 0..4 {
        s.observe(10);
    }
    assert_eq!(s.size(), 16);
    s.observe(200);
    assert_eq!(s.size(), 16);
    s.observe(201);
    assert_eq!(s.size(), 8);
    s.observe(u64::MAX);
    assert_eq!(s.size(), 4);
    for _ in 0..5 {
        s.observe(1000);
    }
    assert_eq!(s.size(), 1);
}

#[test]
fn time_budget_size_saturates() {
    let mut s = Scheduler::new(10, ChunkPolicy::TimeBudget(100));
    for _ in 0..200 {
        s.observe(1);
    }
    assert_eq!(s.size(), usize::MAX);
    assert_eq!(s.next_chunk(), Some(chunk(0, 10)));
}

#[test]
fn time_budget_of_zero() {
    let mut s = Scheduler::new(10, ChunkPolicy::TimeBudget(0));
    s.observe(0);
    assert_eq!(s.size(), 2);
    s.observe(1);
    assert_eq!(s.size(), 1);
}

#[test]
fn other_policies_ignore_timings() {
    let mut s = Scheduler::new(10, ChunkPolicy::FixedSize(4));
    s.observe(0);
    s.observe(u64::MAX);
    assert_eq!(s.size(), 4);
    let mut s = Scheduler::new(10, ChunkPolicy::WorkStealing(4));
    s.observe(0);
    assert_eq!(s.size(), 4);
}

#[test]
fn adapted_chunks_still_tile() {
    let timings = [0u64, 1, 900, 3, 100, 100, 0, 0, 5000, 2, 2, 2];
    let mut s = Scheduler::new(57, ChunkPolicy::TimeBudget(100));
    let mut chunks = Vec::new();
    let mut k = 0;
    while let Some(c) = s.next_chunk() {
        chunks.push(c);
        s.observe(timings[k % timings.len()]);
        k += 1;
    }
    assert_tiles(&chunks, 57);
    assert_eq!(&chunks[..4], &[chunk(0, 1), chunk(1, 3), chunk(3, 7), chunk(7, 9)]);
}

#[test]
fn chunk_len() {
    assert_eq!(chunk(3, 10).len(), 7);
    assert_eq!(chunk(3, 3).len(), 0);
    assert_eq!(chunk(10, 3).len(), 0);
}

#[test]
fn split_in_the_middle() {
    assert_eq!(chunk(0, 10).split(5), Some((chunk(0, 5), chunk(5, 10))));
    assert_eq!(chunk(0, 11).split(5), Some((chunk(0, 5), chunk(5, 11))));
    assert_eq!(chunk(4, 8).split(1), Some((chunk(4, 6), chunk(6, 8))));
    assert_eq!(chunk(4, 6).split(0), Some((chunk(4, 5), chunk(5, 6))));
}

#[test]
fn split_respects_the_granularity() {
    assert_eq!(chunk(0, 9).split(5), None);
    assert_eq!(chunk(0, 1).split(1), None);
    assert_eq!(chunk(0, 1).split(0), None);
    assert_eq!(chunk(5, 5).split(0), None);
    assert_eq!(chunk(9, 5).split(1), None);
    assert_eq!(chunk(0, usize::MAX).split(usize::MAX), None);
}

#[test]
fn timed_hands_back_what_the_body_returns() {
    let (value, _) = timed(|| 6 * 7);
    assert_eq!(value, 42);
    let text = String::from("abc");
    let (moved, time_taken) = timed(move || text);
    assert_eq!(moved, "abc");
    assert!(time_taken.as_nanos() < u128::MAX);
}

#[test]
fn timed_measures_the_body() {
    let wait = std::time::Duration::from_millis(5);
    let (spins, time_taken) = timed(|| {
        let start = std::time::Instant::now();
        let mut spins = 0u64;
        while start.elapsed() < wait {
            spins += 1;
        }
        spins
    });
    assert!(spins > 0);
    assert!(time_taken >= wait);
}

#[test]
fn schedule_replays_timings() {
    // budget 100: a chunk that took at most 50 doubles the next, one that
    // took more than 200 halves it
    let chunks = schedule(40, ChunkPolicy::TimeBudget(100), &[10, 10, 10, 100, 500, 500, 500, 60]);
    assert_eq!(
        chunks,
        vec![
            chunk(0, 1),
            chunk(1, 3),
            chunk(3, 7),
            chunk(7, 15),
            chunk(15, 23),
            chunk(23, 27),
            chunk(27, 29),
            chunk(29, 30),
            chunk(30, 31),
            chunk(31, 32),
            chunk(32, 33),
            chunk(33, 34),
            chunk(34, 35),
            chunk(35, 36),
            chunk(36, 37),
            chunk(37, 38),
            chunk(38, 39),
            chunk(39, 40),
        ]
    );
}

#[test]
fn schedule_without_timings_is_the_partition() {
    for policy in [
        ChunkPolicy::FixedSize(7),
        ChunkPolicy::WorkStealing(3),
        ChunkPolicy::TimeBudget(100),
    ] {
        assert_eq!(schedule(50, policy, &[]), partition(50, policy));
        // timings beyond the last chunk are never used
        assert_eq!(schedule(0, policy, &[1, 2, 3]), vec![]);
    }
    // only the time-budgeted policy listens
    assert_eq!(
        schedule(50, ChunkPolicy::FixedSize(7), &[0, 0, 900, 900]),
        partition(50, ChunkPolicy::FixedSize(7))
    );
}

#[test]
fn every_schedule_tiles() {
    let mut seed = 12345u64;
    for total in [0usize, 1, 2, 17, 200] {
        for budget in [0u64, 1, 100, u64::MAX] {
            let timings: Vec<u64> = (0..64)
                .map(|_| {
                    seed = seed.wrapping_mul(6364136223846793005).wrapping_add(1442695040888963407);
                    (seed >> 33) % 400
                })
                .collect();
            assert_tiles(&schedule(total, ChunkPolicy::TimeBudget(budget), &timings), total);
        }
    }
}

#[test]
fn nanoseconds_saturate_at_the_largest_u64() {
    assert_eq!(saturate(0), 0);
    assert_eq!(saturate(5000), 5000);
    assert_eq!(saturate(u64::MAX as u128), u64::MAX);
    assert_eq!(saturate(u64::MAX as u128 + 1), u64::MAX);
    assert_eq!(saturate(u128::MAX), u64::MAX);
}
