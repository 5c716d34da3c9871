//! The polynomial hash of a byte window, and the recurrence that moves it one
//! byte forward in constant time.
//!
//! Bytes are folded most significant first: the hash of `b0 b1 .. bn` is
//! `b0 * base^n + b1 * base^(n-1) + .. + bn`, reduced modulo the modulus.

use crate::error::ConfigError;
use crate::modular::ModularValue;
use vstd::arithmetic::div_mod::{
    lemma_add_mod_noop, lemma_mul_mod_noop_left, lemma_mul_mod_noop_right, lemma_small_mod,
    lemma_sub_mod_noop, lemma_sub_mod_noop_right,
};
use vstd::arithmetic::mul::{
    lemma_mul_is_associative, lemma_mul_is_commutative, lemma_mul_is_distributive_add_other_way,
};
use vstd::arithmetic::power::{lemma_pow_mod_noop, pow};
use vstd::prelude::*;

verus! {

/// The hash of `bytes`: starting from 0, each byte takes the hash `h` to
/// `(h * base + byte) mod modulus`.
pub open spec fn hash_of(bytes: Seq<u8>, base: int, modulus: int) -> int
    decreases bytes.len(),
{
    if bytes.len() == 0 {
        0
    } else {
        (hash_of(bytes.drop_last(), base, modulus) * base + bytes.last()) % modulus
    }
}

/// The weight of the first byte of a window of `length` bytes:
/// `base^(length - 1) mod modulus`.
pub open spec fn weight_of(length: nat, base: int, modulus: int) -> int
    recommends
        length >= 1,
{
    pow(base, (length - 1) as nat) % modulus
}

/// One step of the rolling recurrence: take the outgoing byte's share out of
/// `prev`, shift by one position, and add the incoming byte.
pub open spec fn roll_of(
    prev: int,
    outgoing: int,
    incoming: int,
    weight: int,
    base: int,
    modulus: int,
) -> int {
    ((prev - outgoing * weight) * base + incoming) % modulus
}

/// A hash is a residue.
pub proof fn lemma_hash_range(bytes: Seq<u8>, base: int, modulus: int)
    requires
        modulus > 0,
    ensures
        0 <= hash_of(bytes, base, modulus) < modulus,
    decreases bytes.len(),
{
    if bytes.len() > 0 {
        lemma_hash_range(bytes.drop_last(), base, modulus);
    }
}

/// The hash of a window is its first byte times the window's weight, plus the
/// hash of the rest, modulo the modulus.
pub proof fn lemma_hash_split_first(bytes: Seq<u8>, base: int, modulus: int)
    requires
        modulus > 0,
        bytes.len() >= 1,
    ensures
        hash_of(bytes, base, modulus) == (bytes[0] * weight_of(bytes.len(), base, modulus)
            + hash_of(bytes.subrange(1, bytes.len() as int), base, modulus)) % modulus,
    decreases bytes.len(),
{
    let n = bytes.len() as int;
    let tail = bytes.subrange(1, n);
    if n == 1 {
        assert(bytes.drop_last().len() == 0);
        assert(tail.len() == 0);
        assert(pow(base, 0) == 1) by {
            reveal(pow);
        }
        let b = bytes[0] as int;
        assert(hash_of(bytes.drop_last(), base, modulus) == 0);
        assert(hash_of(bytes, base, modulus) == (0 * base + b) % modulus);
        assert(b * (1int % modulus) % modulus == b % modulus) by {
            lemma_mul_mod_noop_right(b, 1, modulus);
        }
    } else {
        let front = bytes.drop_last();
        let last = bytes.last() as int;
        let first = bytes[0] as int;
        lemma_hash_split_first(front, base, modulus);
        assert(front[0] == bytes[0]);
        assert(front.subrange(1, n - 1) =~= tail.drop_last());
        assert(tail.last() == bytes.last());
        let w_front = pow(base, (n - 2) as nat);
        let w = pow(base, (n - 1) as nat);
        let ht = hash_of(tail.drop_last(), base, modulus);
        assert(w == base * w_front) by {
            reveal(pow);
        }
        // hash(front) = (first * (w_front % m) + ht) % m
        let hf = hash_of(front, base, modulus);
        assert(hf == (first * (w_front % modulus) + ht) % modulus);
        // lift the inner reductions away
        assert(hf == (first * w_front + ht) % modulus) by {
            lemma_mul_mod_noop_right(first, w_front, modulus);
            lemma_add_mod_noop(first * (w_front % modulus), ht, modulus);
            lemma_add_mod_noop(first * w_front, ht, modulus);
        }
        // hash(bytes) = (hf * base + last) % m
        assert(hash_of(bytes, base, modulus) == (hf * base + last) % modulus);
        assert((hf * base + last) % modulus == ((first * w_front + ht) * base + last) % modulus)
            by {
            lemma_mul_mod_noop_left(first * w_front + ht, base, modulus);
            lemma_add_mod_noop(hf * base, last, modulus);
            lemma_add_mod_noop((first * w_front + ht) * base, last, modulus);
        }
        assert((first * w_front + ht) * base == first * w + ht * base) by {
            lemma_mul_is_distributive_add_other_way(base, first * w_front, ht);
            lemma_mul_is_associative(first, w_front, base);
            lemma_mul_is_commutative(w_front, base);
        }
        // hash(tail) = (ht * base + last) % m
        let h_tail = hash_of(tail, base, modulus);
        assert(h_tail == (ht * base + last) % modulus);
        assert((first * w + ht * base + last) % modulus == (first * (w % modulus) + h_tail)
            % modulus) by {
            lemma_mul_mod_noop_right(first, w, modulus);
            lemma_add_mod_noop(first * w, ht * base + last, modulus);
            lemma_add_mod_noop(first * (w % modulus), h_tail, modulus);
            lemma_hash_range(tail, base, modulus);
            lemma_small_mod(h_tail as nat, modulus as nat);
        }
    }
}

/// Rolling and hashing afresh agree: from the hash of a window, one step of
/// the recurrence gives the hash of the window moved one byte forward.
pub proof fn lemma_roll_matches_direct(window: Seq<u8>, incoming: u8, base: int, modulus: int)
    requires
        modulus > 0,
        window.len() >= 1,
    ensures
        roll_of(
            hash_of(window, base, modulus),
            window[0] as int,
            incoming as int,
            weight_of(window.len(), base, modulus),
            base,
            modulus,
        ) == hash_of(window.subrange(1, window.len() as int).push(incoming), base, modulus),
{
    let n = window.len() as int;
    let tail = window.subrange(1, n);
    let next = tail.push(incoming);
    let h = hash_of(window, base, modulus);
    let ht = hash_of(tail, base, modulus);
    let w = weight_of(window.len(), base, modulus);
    let first = window[0] as int;
    lemma_hash_split_first(window, base, modulus);
    lemma_hash_range(tail, base, modulus);
    assert(next.drop_last() =~= tail);
    assert(next.last() == incoming);
    assert(hash_of(next, base, modulus) == (ht * base + incoming) % modulus);
    // h - first * w is congruent to ht
    assert((h - first * w) % modulus == ht) by {
        lemma_sub_mod_noop(first * w + ht, first * w, modulus);
        lemma_sub_mod_noop_right(h, first * w, modulus);
        lemma_small_mod(ht as nat, modulus as nat);
    }
    assert(((h - first * w) * base + incoming) % modulus == (ht * base + incoming) % modulus) by {
        lemma_mul_mod_noop_left(h - first * w, base, modulus);
        lemma_add_mod_noop((h - first * w) * base, incoming as int, modulus);
        lemma_add_mod_noop(ht * base, incoming as int, modulus);
    }
}

/// A base and a modulus, fixed once per search and handed to every component.
#[derive(Clone, Copy, Debug)]
pub struct Hasher {
    base: u64,
    modulus: u64,
    reduced_base: ModularValue,
}

impl Hasher {
    /// The base: the size of the alphabet, at least 2.
    pub closed spec fn spec_base(&self) -> u64 {
        self.base
    }

    /// The modulus under which all hash arithmetic is done, at least 2.
    pub closed spec fn spec_modulus(&self) -> u64 {
        self.modulus
    }

    /// The base as a residue, kept so that it is reduced only once.
    pub closed spec fn spec_reduced_base(&self) -> ModularValue {
        self.reduced_base
    }

    #[verifier::type_invariant]
    pub open spec fn well_formed(&self) -> bool {
        &&& self.spec_modulus() > 1
        &&& self.spec_base() >= 2
        &&& self.spec_reduced_base().spec_modulus() == self.spec_modulus()
        &&& self.spec_reduced_base().spec_value() == self.spec_base() % self.spec_modulus()
    }

    /// The hash of `bytes` under this hasher.
    pub open spec fn spec_hash(&self, bytes: Seq<u8>) -> int {
        hash_of(bytes, self.spec_base() as int, self.spec_modulus() as int)
    }

    /// The weight of the first byte of a window of `length` bytes.
    pub open spec fn spec_weight(&self, length: nat) -> int {
        weight_of(length, self.spec_base() as int, self.spec_modulus() as int)
    }

    /// A hasher for `base` and `modulus`. A modulus below 2 is rejected first,
    /// then a base below 2.
    pub fn new(base: u64, modulus: u64) -> (r: Result<Hasher, ConfigError>)
        ensures
            modulus <= 1 ==> r == Err::<Hasher, ConfigError>(ConfigError::InvalidModulus),
            modulus > 1 && base < 2 ==> r == Err::<Hasher, ConfigError>(ConfigError::InvalidBase),
            modulus > 1 && base >= 2 ==> r is Ok && r->Ok_0.spec_base() == base
                && r->Ok_0.spec_modulus() == modulus,
    {
        if modulus <= 1 {
            Err(ConfigError::InvalidModulus)
        } else if base < 2 {
            Err(ConfigError::InvalidBase)
        } else {
            Ok(Hasher { base, modulus, reduced_base: ModularValue::reduce(base, modulus) })
        }
    }

    /// The base.
    #[verifier::when_used_as_spec(spec_base)]
    pub fn base(&self) -> (b: u64)
        ensures
            b == self.spec_base(),
            b >= 2,
    {
        proof {
            use_type_invariant(self);
        }
        self.base
    }

    /// The modulus.
    #[verifier::when_used_as_spec(spec_modulus)]
    pub fn modulus(&self) -> (m: u64)
        ensures
            m == self.spec_modulus(),
            m > 1,
    {
        proof {
            use_type_invariant(self);
        }
        self.modulus
    }

    /// Hashes `bytes` from scratch, one multiplication and one addition per
    /// byte. The empty slice hashes to 0.
    pub fn hash(&self, bytes: &[u8]) -> (h: ModularValue)
        ensures
            h.spec_modulus() == self.spec_modulus(),
            h.spec_value() == self.spec_hash(bytes@),
    {
        proof {
            use_type_invariant(self);
        }
        let mut h = ModularValue::reduce(0, self.modulus);
        let mut i: usize = 0;
        assert(bytes@.take(0).len() == 0);
        while i < bytes.len()
            invariant
                i <= bytes.len(),
                self.well_formed(),
                self.reduced_base == self.spec_reduced_base(),
                self.modulus == self.spec_modulus(),
                h.spec_modulus() == self.spec_modulus(),
                h.spec_value() == self.spec_hash(bytes@.take(i as int)),
            decreases bytes.len() - i,
        {
            let byte = ModularValue::reduce(bytes[i] as u64, self.modulus);
            let ghost prev = h.spec_value() as int;
            h = h.mul(self.reduced_base).add(byte);
            proof {
                let m = self.spec_modulus() as int;
                let b = self.spec_base() as int;
                let x = bytes[i as int] as int;
                let next = bytes@.take(i + 1);
                assert(next.drop_last() =~= bytes@.take(i as int));
                assert(next.last() == bytes[i as int]);
                lemma_step_congruent(prev, b, x, m);
            }
            i += 1;
        }
        assert(bytes@.take(i as int) =~= bytes@);
        h
    }

    /// The weight for windows of `length` bytes, or `None` for a length of 0,
    /// for which no weight exists.
    pub fn weight(&self, length: usize) -> (w: Option<ModularValue>)
        ensures
            length == 0 <==> w is None,
            w matches Some(v) ==> v.spec_modulus() == self.spec_modulus() && v.spec_value()
                == self.spec_weight(length as nat),
    {
        if length == 0 {
            None
        } else {
            proof {
                use_type_invariant(self);
                lemma_pow_mod_noop(
                    self.spec_base() as int,
                    (length - 1) as nat,
                    self.spec_modulus() as int,
                );
            }
            Some(self.reduced_base.pow((length - 1) as u64))
        }
    }

    /// Moves a window's hash one byte forward: `outgoing` is the byte that
    /// leaves at the front, `incoming` the one that enters at the back, and
    /// `weight` the weight for the window's length.
    pub fn roll(&self, prev: ModularValue, outgoing: u8, incoming: u8, weight: ModularValue) -> (h:
        ModularValue)
        requires
            prev.spec_modulus() == self.spec_modulus(),
            weight.spec_modulus() == self.spec_modulus(),
        ensures
            h.spec_modulus() == self.spec_modulus(),
            h.spec_value() == roll_of(
                prev.spec_value() as int,
                outgoing as int,
                incoming as int,
                weight.spec_value() as int,
                self.spec_base() as int,
                self.spec_modulus() as int,
            ),
    {
        proof {
            use_type_invariant(self);
        }
        let first = ModularValue::reduce(outgoing as u64, self.modulus);
        let last = ModularValue::reduce(incoming as u64, self.modulus);
        let h = prev.sub(first.mul(weight)).mul(self.reduced_base).add(last);
        proof {
            lemma_roll_congruent(
                prev.spec_value() as int,
                outgoing as int,
                incoming as int,
                weight.spec_value() as int,
                self.spec_base() as int,
                self.spec_modulus() as int,
            );
        }
        h
    }
}

/// Reducing the base and the byte before a hashing step changes nothing.
proof fn lemma_step_congruent(h: int, base: int, byte: int, m: int)
    requires
        m > 0,
    ensures
        ((h * (base % m)) % m + byte % m) % m == (h * base + byte) % m,
{
    lemma_mul_mod_noop_right(h, base, m);
    lemma_add_mod_noop(h * base, byte, m);
}

/// The residues that the rolling step goes through give `roll_of`.
proof fn lemma_roll_congruent(prev: int, outgoing: int, incoming: int, weight: int, base: int, m: int)
    requires
        m > 0,
    ensures
        ((((prev - ((outgoing % m) * weight) % m) % m) * (base % m)) % m + incoming % m) % m
            == roll_of(prev, outgoing, incoming, weight, base, m),
{
    let t1 = ((outgoing % m) * weight) % m;
    let t2 = (prev - t1) % m;
    let t3 = (t2 * (base % m)) % m;
    assert(t1 == (outgoing * weight) % m) by {
        lemma_mul_mod_noop_left(outgoing, weight, m);
    }
    assert(t2 == (prev - outgoing * weight) % m) by {
        lemma_sub_mod_noop_right(prev, outgoing * weight, m);
    }
    assert(t3 == ((prev - outgoing * weight) * base) % m) by {
        lemma_mul_mod_noop_right(t2, base, m);
        lemma_mul_mod_noop_left(prev - outgoing * weight, base, m);
    }
    assert((t3 + incoming % m) % m == ((prev - outgoing * weight) * base + incoming) % m) by {
        lemma_add_mod_noop((prev - outgoing * weight) * base, incoming, m);
    }
}

} // verus!
