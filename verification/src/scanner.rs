//! Walking the windows of one chunk: the first window is hashed from
//! scratch, each later one is rolled from the one before.

use crate::hasher::{hash_of, lemma_roll_matches_direct, weight_of, Hasher};
use crate::modular::ModularValue;
use crate::scheduler::Chunk;
use vstd::prelude::*;

verus! {

/// The window of `len` bytes that starts at `offset`.
pub open spec fn window_at(haystack: Seq<u8>, offset: int, len: int) -> Seq<u8> {
    haystack.subrange(offset, offset + len)
}

/// The number of windows of `needle_len` bytes in a haystack of
/// `haystack_len` bytes: none for an empty needle or one longer than the
/// haystack.
pub open spec fn window_count(haystack_len: nat, needle_len: nat) -> nat {
    if needle_len == 0 || needle_len > haystack_len {
        0
    } else {
        (haystack_len - needle_len + 1) as nat
    }
}

/// What a search keeps of its needle: the length, the hash, and the weight
/// for windows of that length. Computed once and shared by every worker.
#[derive(Clone, Copy, Debug)]
pub struct Pattern {
    hasher: Hasher,
    len: usize,
    hash: ModularValue,
    weight: ModularValue,
}

impl Pattern {
    /// The hasher that the needle was hashed with.
    pub closed spec fn spec_hasher(&self) -> Hasher {
        self.hasher
    }

    /// The needle's length, at least 1.
    pub closed spec fn spec_len(&self) -> usize {
        self.len
    }

    /// The needle's hash.
    pub closed spec fn spec_hash(&self) -> ModularValue {
        self.hash
    }

    /// The weight of the first byte of a window.
    pub closed spec fn spec_weight(&self) -> ModularValue {
        self.weight
    }

    /// The base of the pattern's hasher.
    pub open spec fn spec_base(&self) -> int {
        self.spec_hasher().spec_base() as int
    }

    /// The modulus of the pattern's hasher.
    pub open spec fn spec_modulus(&self) -> int {
        self.spec_hasher().spec_modulus() as int
    }

    #[verifier::type_invariant]
    pub open spec fn well_formed(&self) -> bool {
        &&& self.spec_hasher().well_formed()
        &&& self.spec_len() >= 1
        &&& self.spec_hash().spec_modulus() == self.spec_modulus()
        &&& self.spec_weight().spec_modulus() == self.spec_modulus()
        &&& self.spec_weight().spec_value() == weight_of(
            self.spec_len() as nat,
            self.spec_base(),
            self.spec_modulus(),
        )
    }

    /// Hashes `needle` and computes the weight for its length. There is no
    /// pattern for the empty needle.
    pub fn new(hasher: Hasher, needle: &[u8]) -> (p: Option<Pattern>)
        ensures
            needle@.len() == 0 <==> p is None,
            p matches Some(pattern) ==> {
                &&& pattern.spec_hasher() == hasher
                &&& pattern.spec_len() == needle@.len()
                &&& pattern.spec_hash().spec_modulus() == hasher.spec_modulus()
                &&& pattern.spec_hash().spec_value() == hasher.spec_hash(needle@)
                &&& pattern.spec_weight().spec_modulus() == hasher.spec_modulus()
                &&& pattern.spec_weight().spec_value() == hasher.spec_weight(needle@.len())
            },
    {
        proof {
            use_type_invariant(hasher);
        }
        match hasher.weight(needle.len()) {
            None => None,
            Some(weight) => Some(
                Pattern { hasher, len: needle.len(), hash: hasher.hash(needle), weight },
            ),
        }
    }

    /// The needle's length.
    #[verifier::when_used_as_spec(spec_len)]
    pub fn len(&self) -> (n: usize)
        ensures
            n == self.spec_len(),
            n >= 1,
    {
        proof {
            use_type_invariant(self);
        }
        self.len
    }

    /// The needle's hash.
    #[verifier::when_used_as_spec(spec_hash)]
    pub fn hash(&self) -> (h: ModularValue)
        ensures
            h == self.spec_hash(),
            h.spec_modulus() == self.spec_modulus(),
    {
        proof {
            use_type_invariant(self);
        }
        self.hash
    }

    /// The weight of the first byte of a window.
    #[verifier::when_used_as_spec(spec_weight)]
    pub fn weight(&self) -> (w: ModularValue)
        ensures
            w == self.spec_weight(),
            w.spec_modulus() == self.spec_modulus(),
            w.spec_value() == weight_of(self.spec_len() as nat, self.spec_base(), self.spec_modulus()),
    {
        proof {
            use_type_invariant(self);
        }
        self.weight
    }

    /// The hasher that the needle was hashed with.
    #[verifier::when_used_as_spec(spec_hasher)]
    pub fn hasher(&self) -> (h: Hasher)
        ensures
            h == self.spec_hasher(),
    {
        self.hasher
    }

    /// The number of windows that `haystack` holds for this pattern.
    pub fn window_count(&self, haystack: &[u8]) -> (n: usize)
        ensures
            n == window_count(haystack@.len(), self.spec_len() as nat),
    {
        proof {
            use_type_invariant(self);
        }
        if self.len > haystack.len() {
            0
        } else {
            haystack.len() - self.len + 1
        }
    }
}

/// What a scanner remembers of the window it produced last.
#[derive(Clone, Copy, Debug)]
pub enum ScanState {
    /// No window of the chunk has been produced yet.
    Uninitialized,
    /// The last window began with `first` and hashed to `hash`.
    Rolling { first: u8, hash: ModularValue },
}

/// Produces the hash of each window of one chunk, in increasing offset
/// order, once. A scanner belongs to one chunk and one worker.
pub struct Scanner<'a> {
    haystack: &'a [u8],
    pattern: &'a Pattern,
    position: usize,
    end: usize,
    state: ScanState,
}

impl<'a> Scanner<'a> {
    /// The bytes being scanned.
    pub closed spec fn spec_haystack(&self) -> Seq<u8> {
        self.haystack@
    }

    /// The pattern whose windows are scanned.
    pub closed spec fn spec_pattern(&self) -> Pattern {
        *self.pattern
    }

    /// The offset of the next window.
    pub closed spec fn spec_position(&self) -> usize {
        self.position
    }

    /// The offset at which the scanner stops.
    pub closed spec fn spec_end(&self) -> usize {
        self.end
    }

    /// What is remembered of the last window.
    pub closed spec fn spec_state(&self) -> ScanState {
        self.state
    }

    /// The hash of the window at `offset`.
    pub open spec fn spec_window_hash(&self, offset: int) -> int {
        hash_of(
            window_at(self.spec_haystack(), offset, self.spec_pattern().spec_len() as int),
            self.spec_pattern().spec_base(),
            self.spec_pattern().spec_modulus(),
        )
    }

    #[verifier::type_invariant]
    pub open spec fn well_formed(&self) -> bool {
        &&& self.spec_pattern().well_formed()
        &&& self.spec_position() <= self.spec_end()
        &&& self.spec_end() <= window_count(
            self.spec_haystack().len(),
            self.spec_pattern().spec_len() as nat,
        )
        &&& match self.spec_state() {
            ScanState::Uninitialized => true,
            ScanState::Rolling { first, hash } => {
                &&& self.spec_position() >= 1
                &&& first == self.spec_haystack()[self.spec_position() - 1]
                &&& hash.spec_modulus() == self.spec_pattern().spec_modulus()
                &&& hash.spec_value() == self.spec_window_hash(self.spec_position() - 1)
            },
        }
    }

    /// A scanner for the windows of `chunk`. Offsets at which no whole
    /// window begins are left out.
    pub fn new(pattern: &'a Pattern, haystack: &'a [u8], chunk: Chunk) -> (s: Scanner<'a>)
        ensures
            s.spec_haystack() == haystack@,
            s.spec_pattern() == *pattern,
            s.spec_state() is Uninitialized,
            s.spec_end() == vstd::math::min(
                chunk.end as int,
                window_count(haystack@.len(), pattern.spec_len() as nat) as int,
            ),
            s.spec_position() == vstd::math::min(chunk.start as int, s.spec_end() as int),
    {
        proof {
            use_type_invariant(pattern);
        }
        let total = pattern.window_count(haystack);
        let end = if chunk.end < total {
            chunk.end
        } else {
            total
        };
        let position = if chunk.start < end {
            chunk.start
        } else {
            end
        };
        Scanner { haystack, pattern, position, end, state: ScanState::Uninitialized }
    }

    /// The offset of the next window.
    #[verifier::when_used_as_spec(spec_position)]
    pub fn position(&self) -> (p: usize)
        ensures
            p == self.spec_position(),
            p <= self.spec_end(),
    {
        proof {
            use_type_invariant(self);
        }
        self.position
    }

    /// The offset at which the scanner stops.
    #[verifier::when_used_as_spec(spec_end)]
    pub fn end(&self) -> (e: usize)
        ensures
            e == self.spec_end(),
            e <= window_count(self.spec_haystack().len(), self.spec_pattern().spec_len() as nat),
    {
        proof {
            use_type_invariant(self);
        }
        self.end
    }

    /// What is remembered of the last window.
    #[verifier::when_used_as_spec(spec_state)]
    pub fn state(&self) -> (state: ScanState)
        ensures
            state == self.spec_state(),
    {
        self.state
    }

    /// The next window's offset and hash, or `None` at the end of the chunk.
    /// Whether the hash was computed from scratch or rolled, it is the hash
    /// of the window's bytes.
    pub fn next_window(&mut self) -> (w: Option<(usize, ModularValue)>)
        ensures
            final(self).spec_haystack() == old(self).spec_haystack(),
            final(self).spec_pattern() == old(self).spec_pattern(),
            final(self).spec_end() == old(self).spec_end(),
            old(self).spec_position() == old(self).spec_end() ==> {
                &&& w is None
                &&& final(self).spec_position() == old(self).spec_position()
                &&& final(self).spec_state() == old(self).spec_state()
            },
            old(self).spec_position() != old(self).spec_end() ==> {
                &&& w is Some
                &&& w->Some_0.0 == old(self).spec_position()
                &&& w->Some_0.1.spec_modulus() == old(self).spec_pattern().spec_modulus()
                &&& w->Some_0.1.spec_value() == old(self).spec_window_hash(
                    old(self).spec_position() as int,
                )
                &&& final(self).spec_position() == old(self).spec_position() + 1
                &&& final(self).spec_state() == (ScanState::Rolling {
                    first: old(self).spec_haystack()[old(self).spec_position() as int],
                    hash: w->Some_0.1,
                })
            },
    {
        proof {
            use_type_invariant(&*self);
            use_type_invariant(self.pattern);
        }
        if self.position == self.end {
            return None;
        }
        let offset = self.position;
        let len = self.pattern.len;
        let ghost haystack = self.haystack@;
        let ghost base = self.pattern.spec_base();
        let ghost modulus = self.pattern.spec_modulus();
        assert(offset + len <= self.haystack.len());
        let hash = match self.state {
            ScanState::Uninitialized => {
                self.pattern.hasher.hash(&self.haystack[offset..offset + len])
            },
            ScanState::Rolling { first, hash } => {
                let incoming = self.haystack[offset + len - 1];
                proof {
                    let before = window_at(haystack, offset - 1, len as int);
                    assert(before.subrange(1, len as int).push(incoming) =~= window_at(
                        haystack,
                        offset as int,
                        len as int,
                    ));
                    assert(before[0] == first);
                    lemma_roll_matches_direct(before, incoming, base, modulus);
                }
                self.pattern.hasher.roll(hash, first, incoming, self.pattern.weight)
            },
        };
        *self = Scanner {
            haystack: self.haystack,
            pattern: self.pattern,
            position: offset + 1,
            end: self.end,
            state: ScanState::Rolling { first: self.haystack[offset], hash },
        };
        Some((offset, hash))
    }
}

} // verus!
