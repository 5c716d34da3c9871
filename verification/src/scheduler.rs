//! Cutting the range of window offsets into chunks.
//!
//! A chunk is a run of consecutive window offsets that one worker scans on
//! its own. How long the chunks are is a matter of policy; that they cover
//! every offset exactly once is not.

use vstd::prelude::*;

verus! {

/// The half-open range `[start, end)` of window offsets. A chunk whose end
/// does not lie above its start holds no offset.
#[derive(Clone, Copy, Debug, PartialEq, Eq, Structural)]
pub struct Chunk {
    pub start: usize,
    pub end: usize,
}

/// How chunk lengths are chosen.
#[derive(Clone, Copy, Debug, PartialEq, Eq, Structural)]
pub enum ChunkPolicy {
    /// Every chunk holds this many windows; 0 is read as 1.
    FixedSize(usize),
    /// Chunks start at one window and are doubled or halved until scanning
    /// one takes about this many nanoseconds.
    TimeBudget(u64),
    /// Chunks may be halved by whoever executes them, but never below this
    /// many windows; 0 is read as 1.
    WorkStealing(usize),
}

/// `size`, or 1 where `size` is 0.
pub open spec fn at_least_one(size: nat) -> nat {
    if size == 0 {
        1
    } else {
        size
    }
}

/// Where a chunk of `size` offsets that begins at `position` ends: at
/// `total` if fewer offsets are left.
pub open spec fn chunk_end(position: nat, total: nat, size: nat) -> nat {
    if position + size < total {
        position + size
    } else {
        total
    }
}

/// The chunks that a scheduler at `position` hands out, when its chunk size
/// is `size` and the chunks to come take `timings[0]`, `timings[1]`, ..
/// nanoseconds. Each timing adapts the size of the chunk after it; chunks
/// for which no timing is left keep the size of the last one, so with no
/// timings at all every chunk but the last holds `size` offsets.
pub open spec fn scheduled_chunks(
    policy: ChunkPolicy,
    position: nat,
    total: nat,
    size: nat,
    timings: Seq<u64>,
) -> Seq<Chunk>
    decreases total - position,
{
    if position >= total || size == 0 {
        Seq::empty()
    } else {
        let end = chunk_end(position, total, size);
        let rest = if timings.len() == 0 {
            scheduled_chunks(policy, end, total, size, timings)
        } else {
            scheduled_chunks(
                policy,
                end,
                total,
                adapted_size(policy, size, timings[0] as nat),
                timings.drop_first(),
            )
        };
        seq![Chunk { start: position as usize, end: end as usize }] + rest
    }
}

/// `chunks` cover `[start, end)` without gap or overlap: the first chunk is
/// not empty and begins at `start`, and the others cover what it leaves.
pub open spec fn tiles(chunks: Seq<Chunk>, start: int, end: int) -> bool
    decreases chunks.len(),
{
    if chunks.len() == 0 {
        start == end
    } else {
        &&& chunks[0].start == start
        &&& chunks[0].start < chunks[0].end
        &&& chunks[0].end <= end
        &&& tiles(chunks.drop_first(), chunks[0].end as int, end)
    }
}

/// The chunk size after a chunk took `elapsed` nanoseconds: doubled (up to
/// the largest `usize`) if two such chunks fit the budget, halved (down to
/// 1) if it took more than twice the budget, and otherwise unchanged. Only
/// the time-budgeted policy adapts.
pub open spec fn adapted_size(policy: ChunkPolicy, size: nat, elapsed: nat) -> nat {
    match policy {
        ChunkPolicy::TimeBudget(target) => {
            if 2 * elapsed <= target {
                if 2 * size <= usize::MAX {
                    2 * size
                } else {
                    usize::MAX as nat
                }
            } else if elapsed > 2 * target {
                at_least_one(size / 2)
            } else {
                size
            }
        },
        _ => size,
    }
}

impl Chunk {
    /// The number of offsets in the chunk.
    pub open spec fn spec_len(&self) -> usize {
        if self.start < self.end {
            (self.end - self.start) as usize
        } else {
            0
        }
    }

    /// The number of offsets in the chunk.
    #[verifier::when_used_as_spec(spec_len)]
    pub fn len(&self) -> (n: usize)
        ensures
            n == self.spec_len(),
    {
        if self.start < self.end {
            self.end - self.start
        } else {
            0
        }
    }

    /// Cuts the chunk in the middle, unless a half would hold fewer than
    /// `min_granularity` offsets (or none at all).
    pub fn split(&self, min_granularity: usize) -> (halves: Option<(Chunk, Chunk)>)
        ensures
            halves is Some <==> self.spec_len() >= 2 * at_least_one(min_granularity as nat),
            halves matches Some((left, right)) ==> {
                &&& left.start == self.start
                &&& left.end == self.start + self.spec_len() / 2
                &&& right.start == left.end
                &&& right.end == self.end
                &&& left.spec_len() >= at_least_one(min_granularity as nat)
                &&& right.spec_len() >= at_least_one(min_granularity as nat)
            },
    {
        let granularity = if min_granularity == 0 {
            1
        } else {
            min_granularity
        };
        let half = self.len() / 2;
        if half >= granularity {
            let mid = self.start + half;
            Some((Chunk { start: self.start, end: mid }, Chunk { start: mid, end: self.end }))
        } else {
            None
        }
    }
}

impl ChunkPolicy {
    /// The chunk size that a scheduler starts with.
    pub open spec fn spec_initial_size(&self) -> usize {
        match *self {
            ChunkPolicy::FixedSize(n) => at_least_one(n as nat) as usize,
            ChunkPolicy::TimeBudget(_) => 1,
            ChunkPolicy::WorkStealing(n) => at_least_one(n as nat) as usize,
        }
    }

    /// The chunk size that a scheduler starts with.
    #[verifier::when_used_as_spec(spec_initial_size)]
    pub fn initial_size(&self) -> (size: usize)
        ensures
            size == self.spec_initial_size(),
    {
        match *self {
            ChunkPolicy::FixedSize(n) | ChunkPolicy::WorkStealing(n) => if n == 0 {
                1
            } else {
                n
            },
            ChunkPolicy::TimeBudget(_) => 1,
        }
    }
}

/// Hands out the chunks of `[0, total)` one after another, front to back.
/// Between two chunks it may be told how long the last one took, and adapts
/// the size of the chunks to come.
#[derive(Clone, Copy, Debug)]
pub struct Scheduler {
    policy: ChunkPolicy,
    total: usize,
    position: usize,
    size: usize,
}

impl Scheduler {
    /// The policy.
    pub closed spec fn spec_policy(&self) -> ChunkPolicy {
        self.policy
    }

    /// The number of offsets to hand out in all.
    pub closed spec fn spec_total(&self) -> usize {
        self.total
    }

    /// The first offset not handed out yet.
    pub closed spec fn spec_position(&self) -> usize {
        self.position
    }

    /// The length of the next chunk, if that many offsets are left.
    pub closed spec fn spec_size(&self) -> usize {
        self.size
    }

    #[verifier::type_invariant]
    pub open spec fn well_formed(&self) -> bool {
        self.spec_position() <= self.spec_total() && self.spec_size() >= 1
    }

    /// A scheduler for `total` offsets that has handed out nothing yet.
    pub fn new(total: usize, policy: ChunkPolicy) -> (s: Scheduler)
        ensures
            s.spec_policy() == policy,
            s.spec_total() == total,
            s.spec_position() == 0,
            s.spec_size() == policy.spec_initial_size(),
    {
        Scheduler { policy, total, position: 0, size: policy.initial_size() }
    }

    /// The first offset not handed out yet.
    #[verifier::when_used_as_spec(spec_position)]
    pub fn position(&self) -> (p: usize)
        ensures
            p == self.spec_position(),
            p <= self.spec_total(),
    {
        proof {
            use_type_invariant(self);
        }
        self.position
    }

    /// The length of the next chunk, if that many offsets are left.
    #[verifier::when_used_as_spec(spec_size)]
    pub fn size(&self) -> (n: usize)
        ensures
            n == self.spec_size(),
            n >= 1,
    {
        proof {
            use_type_invariant(self);
        }
        self.size
    }

    /// The next chunk: it begins where the last one ended and holds
    /// `size` offsets, or as many as are left. `None` once every offset has
    /// been handed out.
    pub fn next_chunk(&mut self) -> (chunk: Option<Chunk>)
        ensures
            final(self).spec_policy() == old(self).spec_policy(),
            final(self).spec_total() == old(self).spec_total(),
            final(self).spec_size() == old(self).spec_size(),
            old(self).spec_position() == old(self).spec_total() ==> chunk is None
                && final(self).spec_position() == old(self).spec_position(),
            old(self).spec_position() != old(self).spec_total() ==> chunk == Some(
                Chunk {
                    start: old(self).spec_position(),
                    end: chunk_end(
                        old(self).spec_position() as nat,
                        old(self).spec_total() as nat,
                        old(self).spec_size() as nat,
                    ) as usize,
                },
            ) && final(self).spec_position() == chunk->Some_0.end,
            chunk matches Some(c) ==> c.start < c.end && c.end <= old(self).spec_total(),
    {
        proof {
            use_type_invariant(&*self);
        }
        if self.position == self.total {
            None
        } else {
            let left = self.total - self.position;
            let end = if self.size < left {
                self.position + self.size
            } else {
                self.total
            };
            let chunk = Chunk { start: self.position, end };
            self.position = end;
            Some(chunk)
        }
    }

    /// Tells the scheduler that the chunk it handed out last took
    /// `elapsed_nanos` to scan. Which offsets are handed out does not change,
    /// only how they are grouped.
    pub fn observe(&mut self, elapsed_nanos: u64)
        ensures
            final(self).spec_policy() == old(self).spec_policy(),
            final(self).spec_total() == old(self).spec_total(),
            final(self).spec_position() == old(self).spec_position(),
            final(self).spec_size() == adapted_size(
                old(self).spec_policy(),
                old(self).spec_size() as nat,
                elapsed_nanos as nat,
            ),
    {
        proof {
            use_type_invariant(&*self);
        }
        if let ChunkPolicy::TimeBudget(target) = self.policy {
            if 2 * (elapsed_nanos as u128) <= target as u128 {
                self.size = if self.size <= usize::MAX / 2 {
                    2 * self.size
                } else {
                    usize::MAX
                };
            } else if elapsed_nanos as u128 > 2 * (target as u128) {
                self.size = if self.size / 2 == 0 {
                    1
                } else {
                    self.size / 2
                };
            }
        }
    }
}

/// Whatever the timings, the chunks handed out cover what is left, without
/// gap or overlap.
pub proof fn lemma_schedule_tiles(
    policy: ChunkPolicy,
    position: nat,
    total: nat,
    size: nat,
    timings: Seq<u64>,
)
    requires
        position <= total <= usize::MAX,
        size >= 1,
    ensures
        tiles(scheduled_chunks(policy, position, total, size, timings), position as int, total as int),
    decreases total - position,
{
    if position < total {
        let end = chunk_end(position, total, size);
        let chunks = scheduled_chunks(policy, position, total, size, timings);
        if timings.len() == 0 {
            assert(chunks.drop_first() =~= scheduled_chunks(policy, end, total, size, timings));
            lemma_schedule_tiles(policy, end, total, size, timings);
        } else {
            let next = adapted_size(policy, size, timings[0] as nat);
            assert(chunks.drop_first() =~= scheduled_chunks(
                policy,
                end,
                total,
                next,
                timings.drop_first(),
            ));
            lemma_schedule_tiles(policy, end, total, next, timings.drop_first());
        }
    }
}

/// With no timings the chunks are blocks: the `k`-th holds the offsets from
/// `k * size` on, `size` of them or as many as are left.
pub proof fn lemma_untimed_chunks_are_blocks(policy: ChunkPolicy, total: nat, size: nat, k: nat)
    requires
        total <= usize::MAX,
        size >= 1,
        k * size < total,
    ensures
        k < scheduled_chunks(policy, 0, total, size, Seq::empty()).len(),
        scheduled_chunks(policy, 0, total, size, Seq::empty())[k as int] == (Chunk {
            start: (k * size) as usize,
            end: chunk_end(k * size, total, size) as usize,
        }),
{
    lemma_untimed_blocks_from(policy, 0, total, size, k);
}

/// The `k`-th chunk after `position`, with no timings.
proof fn lemma_untimed_blocks_from(policy: ChunkPolicy, position: nat, total: nat, size: nat, k: nat)
    requires
        total <= usize::MAX,
        size >= 1,
        position + k * size < total,
    ensures
        k < scheduled_chunks(policy, position, total, size, Seq::empty()).len(),
        scheduled_chunks(policy, position, total, size, Seq::empty())[k as int] == (Chunk {
            start: (position + k * size) as usize,
            end: chunk_end(position + k * size, total, size) as usize,
        }),
    decreases k,
{
    let chunks = scheduled_chunks(policy, position, total, size, Seq::empty());
    let end = chunk_end(position, total, size);
    let rest = scheduled_chunks(policy, end, total, size, Seq::empty());
    assert(chunks =~= seq![Chunk { start: position as usize, end: end as usize }] + rest);
    if k > 0 {
        assert(position + size + (k - 1) * size == position + k * size) by (nonlinear_arith);
        assert(k * size >= size) by (nonlinear_arith)
            requires
                k >= 1,
                size >= 1,
        ;
        lemma_untimed_blocks_from(policy, end, total, size, (k - 1) as nat);
        assert(chunks[k as int] == rest[k - 1]);
    } else {
        assert(position + 0 * size == position);
    }
}

/// The chunks that a scheduler hands out for `total` offsets when the
/// chunks take the given times, in nanoseconds. Chunks beyond the last
/// timing are not timed.
pub fn schedule(total: usize, policy: ChunkPolicy, timings: &[u64]) -> (chunks: Vec<Chunk>)
    ensures
        chunks@ == scheduled_chunks(
            policy,
            0,
            total as nat,
            policy.spec_initial_size() as nat,
            timings@,
        ),
        tiles(chunks@, 0, total as int),
{
    let mut scheduler = Scheduler::new(total, policy);
    let mut chunks: Vec<Chunk> = Vec::new();
    let ghost all = scheduled_chunks(
        policy,
        0,
        total as nat,
        policy.spec_initial_size() as nat,
        timings@,
    );
    assert(timings@.skip(0) =~= timings@);
    assert(chunks@ + all =~= all);
    loop
        invariant
            scheduler.spec_policy() == policy,
            scheduler.spec_total() == total,
            scheduler.spec_position() <= total,
            scheduler.spec_size() >= 1,
            chunks@.len() <= scheduler.spec_position(),
            chunks@ + scheduled_chunks(
                policy,
                scheduler.spec_position() as nat,
                total as nat,
                scheduler.spec_size() as nat,
                timings@.skip(vstd::math::min(chunks@.len() as int, timings@.len() as int)),
            ) == all,
        ensures
            chunks@ == all,
        decreases total - scheduler.spec_position(),
    {
        let ghost position = scheduler.spec_position() as nat;
        let ghost size = scheduler.spec_size() as nat;
        let ghost done = vstd::math::min(chunks@.len() as int, timings@.len() as int);
        let ghost left = timings@.skip(done);
        let ghost rest = scheduled_chunks(policy, position, total as nat, size, left);
        proof {
            use_type_invariant(&scheduler);
        }
        match scheduler.next_chunk() {
            None => {
                assert(chunks@ + rest =~= chunks@);
                break ;
            },
            Some(chunk) => {
                let index = chunks.len();
                chunks.push(chunk);
                if index < timings.len() {
                    scheduler.observe(timings[index]);
                    assert(left[0] == timings@[index as int]);
                    assert(left.drop_first() =~= timings@.skip(done + 1));
                } else {
                    assert(left.len() == 0);
                    assert(left =~= timings@.skip(
                        vstd::math::min(chunks@.len() as int, timings@.len() as int),
                    ));
                }
                proof {
                    let after = scheduled_chunks(
                        policy,
                        scheduler.spec_position() as nat,
                        total as nat,
                        scheduler.spec_size() as nat,
                        timings@.skip(vstd::math::min(chunks@.len() as int, timings@.len() as int)),
                    );
                    assert(rest =~= seq![chunk] + after);
                    assert(chunks@ + after =~= chunks@.drop_last() + rest);
                }
            },
        }
    }
    proof {
        lemma_schedule_tiles(
            policy,
            0,
            total as nat,
            policy.spec_initial_size() as nat,
            timings@,
        );
    }
    chunks
}

/// The chunks that a scheduler hands out for `total` offsets when no chunk
/// is timed: blocks of the policy's initial size.
pub fn partition(total: usize, policy: ChunkPolicy) -> (chunks: Vec<Chunk>)
    ensures
        chunks@ == scheduled_chunks(
            policy,
            0,
            total as nat,
            policy.spec_initial_size() as nat,
            Seq::empty(),
        ),
        tiles(chunks@, 0, total as int),
{
    let timings: Vec<u64> = Vec::new();
    schedule(total, policy, timings.as_slice())
}

} // verus!
