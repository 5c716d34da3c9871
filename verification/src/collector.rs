//! Which windows match, and the collector that gathers them.
//!
//! A window matches when its hash equals the needle's. The bytes are not
//! compared: two different windows with the same hash both match, so a
//! reported offset is a candidate, while an offset where the needle does
//! occur is never missed.

use crate::hasher::hash_of;
use crate::modular::{lemma_equal_by_parts, ModularValue};
use crate::scanner::{window_at, window_count, Pattern, Scanner};
use crate::scheduler::{tiles, Chunk};
use vstd::prelude::*;

verus! {

/// A whole window of `len` bytes begins at `offset`, and its hash is `target`.
pub open spec fn hash_matches(
    haystack: Seq<u8>,
    len: nat,
    target: int,
    base: int,
    modulus: int,
    offset: int,
) -> bool {
    &&& 0 <= offset < window_count(haystack.len(), len)
    &&& hash_of(window_at(haystack, offset, len as int), base, modulus) == target
}

/// The offsets in `[start, end)` whose windows match, in increasing order.
pub open spec fn matches_in(
    haystack: Seq<u8>,
    len: nat,
    target: int,
    base: int,
    modulus: int,
    start: int,
    end: int,
) -> Seq<usize>
    decreases end - start,
{
    if end <= start {
        Seq::empty()
    } else {
        let before = matches_in(haystack, len, target, base, modulus, start, end - 1);
        if hash_matches(haystack, len, target, base, modulus, end - 1) {
            before.push((end - 1) as usize)
        } else {
            before
        }
    }
}

/// The matches of each chunk in turn, one list after the other.
pub open spec fn matches_over(
    haystack: Seq<u8>,
    len: nat,
    target: int,
    base: int,
    modulus: int,
    chunks: Seq<Chunk>,
) -> Seq<usize>
    decreases chunks.len(),
{
    if chunks.len() == 0 {
        Seq::empty()
    } else {
        matches_in(
            haystack,
            len,
            target,
            base,
            modulus,
            chunks[0].start as int,
            chunks[0].end as int,
        ) + matches_over(haystack, len, target, base, modulus, chunks.drop_first())
    }
}

/// The result of a whole search: the offsets of all windows of `haystack`
/// whose hash equals that of `needle`. Empty when the needle is empty or
/// longer than the haystack.
pub open spec fn search_matches(haystack: Seq<u8>, needle: Seq<u8>, base: int, modulus: int) -> Seq<
    usize,
> {
    matches_in(
        haystack,
        needle.len(),
        hash_of(needle, base, modulus),
        base,
        modulus,
        0,
        window_count(haystack.len(), needle.len()) as int,
    )
}

/// A range can be scanned in two parts.
pub proof fn lemma_matches_split(
    haystack: Seq<u8>,
    len: nat,
    target: int,
    base: int,
    modulus: int,
    start: int,
    mid: int,
    end: int,
)
    requires
        start <= mid <= end,
    ensures
        matches_in(haystack, len, target, base, modulus, start, end) == matches_in(
            haystack,
            len,
            target,
            base,
            modulus,
            start,
            mid,
        ) + matches_in(haystack, len, target, base, modulus, mid, end),
    decreases end - mid,
{
    let left = matches_in(haystack, len, target, base, modulus, start, mid);
    if mid == end {
        assert(left + Seq::<usize>::empty() =~= left);
    } else {
        lemma_matches_split(haystack, len, target, base, modulus, start, mid, end - 1);
        let right = matches_in(haystack, len, target, base, modulus, mid, end - 1);
        assert((left + right).push((end - 1) as usize) =~= left + right.push((end - 1) as usize));
    }
}

/// No more offsets match than the range holds.
pub proof fn lemma_matches_len(
    haystack: Seq<u8>,
    len: nat,
    target: int,
    base: int,
    modulus: int,
    start: int,
    end: int,
)
    requires
        start <= end,
    ensures
        matches_in(haystack, len, target, base, modulus, start, end).len() <= end - start,
    decreases end - start,
{
    if start < end {
        lemma_matches_len(haystack, len, target, base, modulus, start, end - 1);
    }
}

/// Nothing matches at or past the last window.
pub proof fn lemma_matches_past_windows(
    haystack: Seq<u8>,
    len: nat,
    target: int,
    base: int,
    modulus: int,
    start: int,
    end: int,
)
    requires
        start >= window_count(haystack.len(), len),
    ensures
        matches_in(haystack, len, target, base, modulus, start, end).len() == 0,
    decreases end - start,
{
    if start < end {
        lemma_matches_past_windows(haystack, len, target, base, modulus, start, end - 1);
    }
}

/// An offset is reported exactly when it lies in the range and its window
/// matches.
pub proof fn lemma_matches_members(
    haystack: Seq<u8>,
    len: nat,
    target: int,
    base: int,
    modulus: int,
    start: int,
    end: int,
    offset: usize,
)
    requires
        haystack.len() <= usize::MAX,
    ensures
        matches_in(haystack, len, target, base, modulus, start, end).contains(offset) <==> start
            <= offset < end && hash_matches(haystack, len, target, base, modulus, offset as int),
    decreases end - start,
{
    if start < end {
        lemma_matches_members(haystack, len, target, base, modulus, start, end - 1, offset);
        let before = matches_in(haystack, len, target, base, modulus, start, end - 1);
        if hash_matches(haystack, len, target, base, modulus, end - 1) {
            let all = before.push((end - 1) as usize);
            assert(all.last() == (end - 1) as usize);
            assert(forall|i: int| 0 <= i < before.len() ==> all[i] == before[i]);
            if before.contains(offset) {
                let i = choose|i: int| 0 <= i < before.len() && before[i] == offset;
                assert(all[i] == offset);
            }
            if offset == end - 1 {
                assert(all[all.len() - 1] == offset);
            }
        }
    }
}

/// Each offset is smaller than the next.
pub open spec fn strictly_ascending(offsets: Seq<usize>) -> bool {
    forall|i: int, j: int| 0 <= i < j < offsets.len() ==> offsets[i] < offsets[j]
}

/// The offsets are reported in strictly increasing order, so none is
/// reported twice.
pub proof fn lemma_matches_ascending(
    haystack: Seq<u8>,
    len: nat,
    target: int,
    base: int,
    modulus: int,
    start: int,
    end: int,
)
    requires
        haystack.len() <= usize::MAX,
    ensures
        strictly_ascending(matches_in(haystack, len, target, base, modulus, start, end)),
    decreases end - start,
{
    if start < end {
        lemma_matches_ascending(haystack, len, target, base, modulus, start, end - 1);
        let before = matches_in(haystack, len, target, base, modulus, start, end - 1);
        assert forall|i: int| 0 <= i < before.len() implies before[i] < end - 1 by {
            lemma_matches_members(haystack, len, target, base, modulus, start, end - 1, before[i]);
            assert(before.contains(before[i]));
        }
    }
}

/// Chunking invariance: whatever chunks a range is cut into, scanning them
/// one by one finds what scanning the range in one piece finds.
pub proof fn lemma_chunking_invariance(
    haystack: Seq<u8>,
    len: nat,
    target: int,
    base: int,
    modulus: int,
    chunks: Seq<Chunk>,
    start: int,
    end: int,
)
    requires
        tiles(chunks, start, end),
    ensures
        matches_over(haystack, len, target, base, modulus, chunks) == matches_in(
            haystack,
            len,
            target,
            base,
            modulus,
            start,
            end,
        ),
    decreases chunks.len(),
{
    if chunks.len() > 0 {
        let mid = chunks[0].end as int;
        lemma_tiles_ordered(chunks.drop_first(), mid, end);
        lemma_chunking_invariance(haystack, len, target, base, modulus, chunks.drop_first(), mid, end);
        lemma_matches_split(haystack, len, target, base, modulus, start, mid, end);
    }
}

/// Chunks that tile a range end where the range ends, not before its start.
pub proof fn lemma_tiles_ordered(chunks: Seq<Chunk>, start: int, end: int)
    requires
        tiles(chunks, start, end),
    ensures
        start <= end,
    decreases chunks.len(),
{
    if chunks.len() > 0 {
        lemma_tiles_ordered(chunks.drop_first(), chunks[0].end as int, end);
    }
}

/// One chunk that covers the whole range gives what any partition of the
/// range gives.
pub proof fn lemma_single_chunk_equals_partition(
    haystack: Seq<u8>,
    len: nat,
    target: int,
    base: int,
    modulus: int,
    chunks: Seq<Chunk>,
    total: usize,
)
    requires
        tiles(chunks, 0, total as int),
    ensures
        matches_over(haystack, len, target, base, modulus, seq![Chunk { start: 0, end: total }])
            == matches_over(haystack, len, target, base, modulus, chunks),
{
    let whole = seq![Chunk { start: 0, end: total }];
    let all = matches_in(haystack, len, target, base, modulus, 0, total as int);
    assert(whole.drop_first().len() == 0);
    assert(matches_over(haystack, len, target, base, modulus, whole.drop_first()).len() == 0);
    assert(all + Seq::<usize>::empty() =~= all);
    lemma_chunking_invariance(haystack, len, target, base, modulus, chunks, 0, total as int);
}

/// No occurrence is missed: where the needle's bytes stand in the haystack,
/// the offset is reported.
pub proof fn lemma_occurrence_is_reported(
    haystack: Seq<u8>,
    needle: Seq<u8>,
    base: int,
    modulus: int,
    offset: usize,
)
    requires
        haystack.len() <= usize::MAX,
        needle.len() >= 1,
        offset + needle.len() <= haystack.len(),
        window_at(haystack, offset as int, needle.len() as int) == needle,
    ensures
        search_matches(haystack, needle, base, modulus).contains(offset),
{
    lemma_matches_members(
        haystack,
        needle.len(),
        hash_of(needle, base, modulus),
        base,
        modulus,
        0,
        window_count(haystack.len(), needle.len()) as int,
        offset,
    );
}

/// An empty needle, or one longer than the haystack, matches nowhere.
pub proof fn lemma_degenerate_needle_matches_nowhere(
    haystack: Seq<u8>,
    needle: Seq<u8>,
    base: int,
    modulus: int,
)
    requires
        needle.len() == 0 || needle.len() > haystack.len(),
    ensures
        search_matches(haystack, needle, base, modulus).len() == 0,
{
}

/// Gathers the offsets whose hash equals the pattern's, or only counts
/// them, as its maker asked.
pub struct MatchCollector {
    pattern: Pattern,
    keep_offsets: bool,
    offsets: Vec<usize>,
    count: usize,
    matched: Ghost<Seq<usize>>,
}

impl MatchCollector {
    /// The pattern that hashes are compared with.
    pub closed spec fn spec_pattern(&self) -> Pattern {
        self.pattern
    }

    /// Whether the offsets are kept, or only counted.
    pub closed spec fn spec_keeps_offsets(&self) -> bool {
        self.keep_offsets
    }

    /// The offsets that matched so far, in the order in which they came,
    /// whether or not they are kept.
    pub closed spec fn spec_matched(&self) -> Seq<usize> {
        self.matched@
    }

    /// What is stored: the offsets that matched, if they are kept.
    pub closed spec fn spec_stored(&self) -> Seq<usize> {
        self.offsets@
    }

    /// The counter.
    pub closed spec fn spec_count(&self) -> usize {
        self.count
    }

    /// What every collector satisfies, from its making on: the counter and
    /// the stored offsets agree with what matched.
    pub open spec fn well_formed(&self) -> bool {
        &&& self.spec_pattern().well_formed()
        &&& self.spec_count() == self.spec_matched().len()
        &&& self.spec_stored() == if self.spec_keeps_offsets() {
            self.spec_matched()
        } else {
            Seq::empty()
        }
    }

    /// The matches of the pattern among the windows of `haystack` that begin
    /// in `[start, end)`.
    pub open spec fn spec_matches_in(&self, haystack: Seq<u8>, start: int, end: int) -> Seq<usize> {
        matches_in(
            haystack,
            self.spec_pattern().spec_len() as nat,
            self.spec_pattern().spec_hash().spec_value() as int,
            self.spec_pattern().spec_base(),
            self.spec_pattern().spec_modulus(),
            start,
            end,
        )
    }

    /// A collector that has seen nothing.
    pub fn new(pattern: Pattern, keep_offsets: bool) -> (c: MatchCollector)
        ensures
            c.well_formed(),
            c.spec_pattern() == pattern,
            c.spec_keeps_offsets() == keep_offsets,
            c.spec_matched().len() == 0,
    {
        proof {
            use_type_invariant(pattern);
        }
        MatchCollector {
            pattern,
            keep_offsets,
            offsets: Vec::new(),
            count: 0,
            matched: Ghost(Seq::empty()),
        }
    }

    /// The pattern that hashes are compared with.
    #[verifier::when_used_as_spec(spec_pattern)]
    pub fn pattern(&self) -> (p: Pattern)
        ensures
            p == self.spec_pattern(),
    {
        self.pattern
    }

    /// Whether the offsets are kept, or only counted.
    #[verifier::when_used_as_spec(spec_keeps_offsets)]
    pub fn keeps_offsets(&self) -> (keeps: bool)
        ensures
            keeps == self.spec_keeps_offsets(),
    {
        self.keep_offsets
    }

    /// The number of offsets that matched.
    pub fn count(&self) -> (n: usize)
        requires
            self.well_formed(),
        ensures
            n == self.spec_matched().len(),
    {
        self.count
    }

    /// The offsets that matched, if they were kept, and else none.
    pub fn into_offsets(self) -> (offsets: Vec<usize>)
        requires
            self.well_formed(),
        ensures
            offsets@ == if self.spec_keeps_offsets() {
                self.spec_matched()
            } else {
                Seq::empty()
            },
    {
        self.offsets
    }

    /// Compares `hash` with the pattern's hash, residue and modulus both, and
    /// records `offset` if they are equal.
    pub fn offer(&mut self, offset: usize, hash: ModularValue)
        requires
            old(self).well_formed(),
            old(self).spec_matched().len() < usize::MAX,
        ensures
            final(self).well_formed(),
            final(self).spec_pattern() == old(self).spec_pattern(),
            final(self).spec_keeps_offsets() == old(self).spec_keeps_offsets(),
            final(self).spec_matched() == if hash == old(self).spec_pattern().spec_hash() {
                old(self).spec_matched().push(offset)
            } else {
                old(self).spec_matched()
            },
    {
        if hash == self.pattern.hash() {
            if self.keep_offsets {
                self.offsets.push(offset);
            }
            self.count = self.count + 1;
            self.matched = Ghost(self.matched@.push(offset));
        }
    }

    /// Scans the windows of `haystack` that begin in `chunk` with a scanner
    /// of their own, and offers each to the collector.
    pub fn scan_chunk(&mut self, haystack: &[u8], chunk: Chunk)
        requires
            old(self).well_formed(),
            old(self).spec_matched().len() + chunk.spec_len() <= usize::MAX,
        ensures
            final(self).well_formed(),
            final(self).spec_pattern() == old(self).spec_pattern(),
            final(self).spec_keeps_offsets() == old(self).spec_keeps_offsets(),
            final(self).spec_matched() == old(self).spec_matched() + old(self).spec_matches_in(
                haystack@,
                chunk.start as int,
                chunk.end as int,
            ),
    {
        let pattern = self.pattern;
        let mut scanner = Scanner::new(&pattern, haystack, chunk);
        let ghost first = scanner.spec_position() as int;
        let ghost stop = scanner.spec_end() as int;
        let ghost before = self.spec_matched();
        let ghost len = pattern.spec_len() as nat;
        let ghost target = pattern.spec_hash().spec_value() as int;
        let ghost base = pattern.spec_base();
        let ghost modulus = pattern.spec_modulus();
        loop
            invariant
                self.well_formed(),
                scanner.spec_haystack() == haystack@,
                scanner.spec_pattern() == pattern,
                self.spec_pattern() == pattern,
                self.spec_keeps_offsets() == old(self).spec_keeps_offsets(),
                pattern.well_formed(),
                len == pattern.spec_len(),
                target == pattern.spec_hash().spec_value(),
                base == pattern.spec_base(),
                modulus == pattern.spec_modulus(),
                first <= scanner.spec_position() <= stop,
                scanner.spec_end() == stop,
                stop == vstd::math::min(chunk.end as int, window_count(haystack@.len(), len) as int),
                first == vstd::math::min(chunk.start as int, stop),
                before.len() + chunk.spec_len() <= usize::MAX,
                self.spec_matched() == before + matches_in(
                    haystack@,
                    len,
                    target,
                    base,
                    modulus,
                    first,
                    scanner.spec_position() as int,
                ),
            ensures
                self.well_formed(),
                self.spec_matched() == before + matches_in(
                    haystack@,
                    len,
                    target,
                    base,
                    modulus,
                    first,
                    stop,
                ),
            decreases scanner.spec_end() - scanner.spec_position(),
        {
            let ghost position = scanner.spec_position() as int;
            match scanner.next_window() {
                None => {
                    break ;
                },
                Some((offset, hash)) => {
                    proof {
                        lemma_matches_len(haystack@, len, target, base, modulus, first, position);
                        lemma_equal_by_parts(hash, pattern.spec_hash());
                        let found = matches_in(haystack@, len, target, base, modulus, first, position);
                        assert((before + found).push(offset) =~= before + found.push(offset));
                    }
                    self.offer(offset, hash);
                },
            }
        }
        proof {
            let total = window_count(haystack@.len(), len) as int;
            let start = chunk.start as int;
            let end = chunk.end as int;
            if start < end {
                if start < stop {
                    lemma_matches_split(haystack@, len, target, base, modulus, start, stop, end);
                    if stop < end {
                        lemma_matches_past_windows(haystack@, len, target, base, modulus, stop, end);
                    }
                    let found = matches_in(haystack@, len, target, base, modulus, start, stop);
                    assert(found + Seq::<usize>::empty() =~= found);
                } else {
                    lemma_matches_past_windows(haystack@, len, target, base, modulus, start, end);
                    assert(matches_in(haystack@, len, target, base, modulus, first, stop).len() == 0);
                }
            }
            assert(self.spec_matched() =~= before + matches_in(
                haystack@,
                len,
                target,
                base,
                modulus,
                start,
                end,
            ));
        }
    }

    /// Takes over what another collector for the same pattern gathered, after
    /// what this one holds. Where this collector keeps offsets, the other
    /// must have kept them too.
    pub fn absorb(&mut self, other: MatchCollector)
        requires
            old(self).well_formed(),
            other.well_formed(),
            old(self).spec_pattern() == other.spec_pattern(),
            old(self).spec_keeps_offsets() ==> other.spec_keeps_offsets(),
            old(self).spec_matched().len() + other.spec_matched().len() <= usize::MAX,
        ensures
            final(self).well_formed(),
            final(self).spec_pattern() == old(self).spec_pattern(),
            final(self).spec_keeps_offsets() == old(self).spec_keeps_offsets(),
            final(self).spec_matched() == old(self).spec_matched() + other.spec_matched(),
    {
        let ghost before = self.spec_matched();
        let ghost added = other.spec_matched();
        if self.keep_offsets {
            let mut i: usize = 0;
            while i < other.offsets.len()
                invariant
                    i <= other.offsets.len(),
                    other.offsets@ == added,
                    self.keep_offsets,
                    self.pattern == old(self).spec_pattern(),
                    self.count == before.len(),
                    self.matched@ == before,
                    self.offsets@ == before + added.take(i as int),
                decreases other.offsets.len() - i,
            {
                self.offsets.push(other.offsets[i]);
                proof {
                    assert(added.take(i + 1) =~= added.take(i as int).push(added[i as int]));
                    assert(self.offsets@ =~= before + added.take(i + 1));
                }
                i += 1;
            }
            assert(added.take(i as int) =~= added);
        }
        self.count = self.count + other.count;
        self.matched = Ghost(before + added);
    }
}

} // verus!
