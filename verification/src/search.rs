//! A whole search: validate the configuration, hash the needle once, scan
//! the haystack chunk by chunk, and hand back what matched.
//!
//! The chunks are scanned one after another on the calling thread. A caller
//! with a pool of workers cuts the same chunks with [`partition`] or
//! [`Chunk::split`] and gives each worker a collector of its own.
//!
//! [`partition`]: crate::scheduler::partition
//! [`Chunk::split`]: crate::scheduler::Chunk::split

use crate::clock::{saturating_nanos, timed};
use crate::collector::{lemma_matches_len, lemma_matches_split, search_matches, MatchCollector};
use crate::error::ConfigError;
use crate::hasher::Hasher;
use crate::scanner::{window_count, Pattern};
use crate::scheduler::{Chunk, ChunkPolicy, Scheduler};
use vstd::prelude::*;

verus! {

/// The modulus that [`string_match`] hashes under.
pub const DEFAULT_MODULUS: u64 = 7907;

/// The base that [`string_match`] hashes with: one digit per byte value.
pub const DEFAULT_BASE: u64 = 256;

/// The time, in nanoseconds, that [`string_match`] lets a chunk take.
pub const DEFAULT_TIME_BUDGET: u64 = 5000;

/// What a search is configured with.
#[derive(Clone, Copy, Debug, PartialEq, Eq, Structural)]
pub struct SearchConfig {
    /// The modulus of the hash, above 1.
    pub modulus: u64,
    /// The base of the hash, at least 2.
    pub base: u64,
    /// The number of workers, at least 1.
    pub thread_count: usize,
    /// How the window offsets are cut into chunks.
    pub chunk_policy: ChunkPolicy,
}

impl SearchConfig {
    /// The first parameter that is invalid: the modulus if it is below 2,
    /// else the base if it is below 2, else the thread count if it is 0.
    pub open spec fn spec_error(&self) -> Option<ConfigError> {
        if self.modulus <= 1 {
            Some(ConfigError::InvalidModulus)
        } else if self.base < 2 {
            Some(ConfigError::InvalidBase)
        } else if self.thread_count == 0 {
            Some(ConfigError::InvalidThreadCount)
        } else {
            None
        }
    }

    /// Checks every parameter, and names the first that is invalid.
    pub fn validate(&self) -> (r: Result<(), ConfigError>)
        ensures
            r is Ok <==> self.spec_error() is None,
            r matches Err(e) ==> self.spec_error() == Some(e),
    {
        if self.modulus <= 1 {
            Err(ConfigError::InvalidModulus)
        } else if self.base < 2 {
            Err(ConfigError::InvalidBase)
        } else if self.thread_count == 0 {
            Err(ConfigError::InvalidThreadCount)
        } else {
            Ok(())
        }
    }
}

impl Default for SearchConfig {
    /// The default modulus, base and time budget, and one worker.
    fn default() -> (config: SearchConfig)
        ensures
            config == (SearchConfig {
                modulus: DEFAULT_MODULUS,
                base: DEFAULT_BASE,
                thread_count: 1,
                chunk_policy: ChunkPolicy::TimeBudget(DEFAULT_TIME_BUDGET),
            }),
    {
        SearchConfig {
            modulus: DEFAULT_MODULUS,
            base: DEFAULT_BASE,
            thread_count: 1,
            chunk_policy: ChunkPolicy::TimeBudget(DEFAULT_TIME_BUDGET),
        }
    }
}

/// Scans `chunk`, halving it as long as the halves hold `min_granularity`
/// offsets, left half first.
fn scan_divided(
    collector: &mut MatchCollector,
    haystack: &[u8],
    chunk: Chunk,
    min_granularity: usize,
)
    requires
        old(collector).well_formed(),
        old(collector).spec_matched().len() + chunk.spec_len() <= usize::MAX,
    ensures
        final(collector).well_formed(),
        final(collector).spec_pattern() == old(collector).spec_pattern(),
        final(collector).spec_keeps_offsets() == old(collector).spec_keeps_offsets(),
        final(collector).spec_matched() == old(collector).spec_matched() + old(
            collector,
        ).spec_matches_in(haystack@, chunk.start as int, chunk.end as int),
    decreases chunk.spec_len(),
{
    match chunk.split(min_granularity) {
        None => {
            collector.scan_chunk(haystack, chunk);
        },
        Some((left, right)) => {
            let ghost before = collector.spec_matched();
            let ghost pattern = collector.spec_pattern();
            let ghost len = pattern.spec_len() as nat;
            let ghost target = pattern.spec_hash().spec_value() as int;
            proof {
                lemma_matches_len(
                    haystack@,
                    len,
                    target,
                    pattern.spec_base(),
                    pattern.spec_modulus(),
                    left.start as int,
                    left.end as int,
                );
                lemma_matches_split(
                    haystack@,
                    len,
                    target,
                    pattern.spec_base(),
                    pattern.spec_modulus(),
                    chunk.start as int,
                    left.end as int,
                    chunk.end as int,
                );
            }
            scan_divided(collector, haystack, left, min_granularity);
            scan_divided(collector, haystack, right, min_granularity);
            proof {
                let first = collector.spec_matches_in(haystack@, left.start as int, left.end as int);
                let second = collector.spec_matches_in(
                    haystack@,
                    right.start as int,
                    right.end as int,
                );
                assert((before + first) + second =~= before + (first + second));
            }
        },
    }
}

/// Scans every window of `haystack`, in the chunks that `policy` asks for.
/// Under the time-budgeted policy each chunk is timed, and the scheduler
/// told; the clock decides how the offsets are grouped, never what matches.
fn scan_all(collector: &mut MatchCollector, haystack: &[u8], policy: ChunkPolicy)
    requires
        old(collector).well_formed(),
        old(collector).spec_matched().len() == 0,
    ensures
        final(collector).well_formed(),
        final(collector).spec_pattern() == old(collector).spec_pattern(),
        final(collector).spec_keeps_offsets() == old(collector).spec_keeps_offsets(),
        final(collector).spec_matched() == old(collector).spec_matches_in(
            haystack@,
            0,
            window_count(haystack@.len(), old(collector).spec_pattern().spec_len() as nat) as int,
        ),
{
    let pattern = collector.pattern();
    let total = pattern.window_count(haystack);
    let ghost len = pattern.spec_len() as nat;
    let ghost target = pattern.spec_hash().spec_value() as int;
    let ghost base = pattern.spec_base();
    let ghost modulus = pattern.spec_modulus();
    assert(collector.spec_matched() =~= Seq::<usize>::empty());
    if let ChunkPolicy::WorkStealing(min_granularity) = policy {
        scan_divided(collector, haystack, Chunk { start: 0, end: total }, min_granularity);
        assert(Seq::<usize>::empty() + collector.spec_matches_in(haystack@, 0, total as int)
            =~= collector.spec_matches_in(haystack@, 0, total as int));
        return ;
    }
    let adaptive = match policy {
        ChunkPolicy::TimeBudget(_) => true,
        _ => false,
    };
    let mut scheduler = Scheduler::new(total, policy);
    loop
        invariant
            collector.well_formed(),
            collector.spec_pattern() == pattern,
            collector.spec_pattern() == old(collector).spec_pattern(),
            collector.spec_keeps_offsets() == old(collector).spec_keeps_offsets(),
            len == pattern.spec_len(),
            target == pattern.spec_hash().spec_value(),
            base == pattern.spec_base(),
            modulus == pattern.spec_modulus(),
            scheduler.spec_total() == total,
            scheduler.spec_position() <= total,
            collector.spec_matched() == collector.spec_matches_in(
                haystack@,
                0,
                scheduler.spec_position() as int,
            ),
        ensures
            collector.well_formed(),
            collector.spec_pattern() == old(collector).spec_pattern(),
            collector.spec_keeps_offsets() == old(collector).spec_keeps_offsets(),
            collector.spec_matched() == collector.spec_matches_in(haystack@, 0, total as int),
        decreases total - scheduler.spec_position(),
    {
        let ghost position = scheduler.spec_position() as int;
        match scheduler.next_chunk() {
            None => {
                break ;
            },
            Some(chunk) => {
                proof {
                    lemma_matches_len(haystack@, len, target, base, modulus, 0, position);
                    lemma_matches_split(
                        haystack@,
                        len,
                        target,
                        base,
                        modulus,
                        0,
                        position,
                        chunk.end as int,
                    );
                }
                if adaptive {
                    let keep_offsets = collector.keeps_offsets();
                    let scan = || -> (part: MatchCollector)
                        ensures
                            part.well_formed(),
                            part.spec_pattern() == pattern,
                            part.spec_keeps_offsets() == keep_offsets,
                            part.spec_matched() == part.spec_matches_in(
                                haystack@,
                                chunk.start as int,
                                chunk.end as int,
                            ),
                        {
                            let mut part = MatchCollector::new(pattern, keep_offsets);
                            part.scan_chunk(haystack, chunk);
                            assert(Seq::<usize>::empty() + part.spec_matches_in(
                                haystack@,
                                chunk.start as int,
                                chunk.end as int,
                            ) =~= part.spec_matches_in(
                                haystack@,
                                chunk.start as int,
                                chunk.end as int,
                            ));
                            part
                        };
                    let (part, time_taken) = timed(scan);
                    proof {
                        lemma_matches_len(
                            haystack@,
                            len,
                            target,
                            base,
                            modulus,
                            chunk.start as int,
                            chunk.end as int,
                        );
                    }
                    collector.absorb(part);
                    scheduler.observe(saturating_nanos(&time_taken));
                } else {
                    collector.scan_chunk(haystack, chunk);
                }
            },
        }
    }
}

/// Validates, hashes the needle, and scans: the offsets (if they are to be
/// kept) and their number.
fn search(haystack: &[u8], needle: &[u8], config: &SearchConfig, keep_offsets: bool) -> (r: Result<
    (Vec<usize>, usize),
    ConfigError,
>)
    ensures
        r is Ok <==> config.spec_error() is None,
        r matches Err(e) ==> config.spec_error() == Some(e),
        r matches Ok((offsets, count)) ==> {
            let matches = search_matches(
                haystack@,
                needle@,
                config.base as int,
                config.modulus as int,
            );
            &&& count == matches.len()
            &&& offsets@ == if keep_offsets {
                matches
            } else {
                Seq::empty()
            }
        },
{
    let hasher = match Hasher::new(config.base, config.modulus) {
        Ok(hasher) => hasher,
        Err(e) => {
            return Err(e);
        },
    };
    if config.thread_count == 0 {
        return Err(ConfigError::InvalidThreadCount);
    }
    match Pattern::new(hasher, needle) {
        None => Ok((Vec::new(), 0)),
        Some(pattern) => {
            let mut collector = MatchCollector::new(pattern, keep_offsets);
            scan_all(&mut collector, haystack, config.chunk_policy);
            let count = collector.count();
            Ok((collector.into_offsets(), count))
        },
    }
}

/// Every offset of `haystack` at which a window of the needle's length has
/// the needle's hash, in increasing order. The result does not depend on the
/// chunk policy or the thread count. An empty needle, or one longer than the
/// haystack, gives no offsets. An invalid configuration is reported before
/// anything is hashed.
pub fn find_matches(haystack: &[u8], needle: &[u8], config: &SearchConfig) -> (r: Result<
    Vec<usize>,
    ConfigError,
>)
    ensures
        r is Ok <==> config.spec_error() is None,
        r matches Err(e) ==> config.spec_error() == Some(e),
        r matches Ok(offsets) ==> offsets@ == search_matches(
            haystack@,
            needle@,
            config.base as int,
            config.modulus as int,
        ),
        r matches Ok(offsets) ==> (needle@.len() == 0 || needle@.len() > haystack@.len())
            ==> offsets@.len() == 0,
{
    match search(haystack, needle, config, true) {
        Ok((offsets, _)) => Ok(offsets),
        Err(e) => Err(e),
    }
}

/// The number of offsets that [`find_matches`] would return, without
/// storing them.
pub fn count_matches(haystack: &[u8], needle: &[u8], config: &SearchConfig) -> (r: Result<
    usize,
    ConfigError,
>)
    ensures
        r is Ok <==> config.spec_error() is None,
        r matches Err(e) ==> config.spec_error() == Some(e),
        r matches Ok(count) ==> count == search_matches(
            haystack@,
            needle@,
            config.base as int,
            config.modulus as int,
        ).len(),
        r matches Ok(count) ==> (needle@.len() == 0 || needle@.len() > haystack@.len()) ==> count
            == 0,
{
    match search(haystack, needle, config, false) {
        Ok((_, count)) => Ok(count),
        Err(e) => Err(e),
    }
}

/// The number of windows of `haystack` that hash like `needle` under the
/// default base and modulus. A `block_size` of 0 asks for time-budgeted
/// chunks, any other for chunks of that many windows; the count is the same.
pub fn string_match(haystack: &[u8], needle: &[u8], block_size: usize) -> (count: usize)
    ensures
        count == search_matches(
            haystack@,
            needle@,
            DEFAULT_BASE as int,
            DEFAULT_MODULUS as int,
        ).len(),
{
    let chunk_policy = if block_size == 0 {
        ChunkPolicy::TimeBudget(DEFAULT_TIME_BUDGET)
    } else {
        ChunkPolicy::FixedSize(block_size)
    };
    let config = SearchConfig {
        modulus: DEFAULT_MODULUS,
        base: DEFAULT_BASE,
        thread_count: 1,
        chunk_policy,
    };
    match count_matches(haystack, needle, &config) {
        Ok(count) => count,
        Err(_) => 0,
    }
}

/// Searching is deterministic: two results that [`find_matches`] may give
/// for the same haystack, needle and configuration are the same.
pub proof fn lemma_search_is_deterministic(
    haystack: &[u8],
    needle: &[u8],
    config: &SearchConfig,
    first: Result<Vec<usize>, ConfigError>,
    second: Result<Vec<usize>, ConfigError>,
)
    requires
        call_ensures(find_matches, (haystack, needle, config), first),
        call_ensures(find_matches, (haystack, needle, config), second),
    ensures
        first is Ok <==> second is Ok,
        first matches Ok(a) ==> second matches Ok(b) && a@ == b@,
        first matches Err(e) ==> second == Err::<Vec<usize>, ConfigError>(e),
{
}

/// The schedule does not matter: two valid configurations with the same
/// base and modulus give the same matches, whatever their chunk policies and
/// thread counts.
pub proof fn lemma_schedule_does_not_matter(
    haystack: &[u8],
    needle: &[u8],
    one: &SearchConfig,
    other: &SearchConfig,
    first: Result<Vec<usize>, ConfigError>,
    second: Result<Vec<usize>, ConfigError>,
)
    requires
        one.spec_error() is None,
        other.spec_error() is None,
        one.base == other.base,
        one.modulus == other.modulus,
        call_ensures(find_matches, (haystack, needle, one), first),
        call_ensures(find_matches, (haystack, needle, other), second),
    ensures
        first matches Ok(a) && second matches Ok(b) && a@ == b@,
{
}

} // verus!
