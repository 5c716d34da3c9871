//! Integers that carry their modulus, with every result normalised into
//! `[0, modulus)`.
//!
//! The arithmetic itself is done by `bare_metal_modulo::ModNum` over `u128`,
//! which is wide enough that no product of two `u64` residues overflows.

use crate::error::ConfigError;
use bare_metal_modulo::{MNum, ModNum};
use num::traits::Pow;
use vstd::arithmetic::div_mod::lemma_mod_add_multiples_vanish;
use vstd::arithmetic::power::pow;
use vstd::prelude::*;

verus! {

/// Trusted: `bare_metal_modulo::ModNum::new`, read back with `MNum::a`.
///
/// The crate stores the floored remainder of `a` on division by `m`, which
/// for unsigned numbers is `a % m`. It divides by `m`, so `m` must not be
/// zero.
#[verifier::external_body]
fn modnum_reduce(a: u64, m: u64) -> (r: u64)
    requires
        m > 0,
    ensures
        r == a % m,
{
    ModNum::new(a as u128, m as u128).a() as u64
}

/// Trusted: `+` between two `bare_metal_modulo::ModNum`.
///
/// The crate adds the two residues and reduces the sum. In `u128` the sum
/// of two `u64` cannot overflow.
#[verifier::external_body]
fn modnum_add(a: u64, b: u64, m: u64) -> (r: u64)
    requires
        m > 0,
        a < m,
        b < m,
    ensures
        r == (a + b) % (m as int),
{
    (ModNum::new(a as u128, m as u128) + ModNum::new(b as u128, m as u128)).a() as u64
}

/// Trusted: `-` between two `bare_metal_modulo::ModNum`.
///
/// The crate adds `m - b` to `a` and reduces the sum, so that no
/// intermediate value is negative.
#[verifier::external_body]
fn modnum_sub(a: u64, b: u64, m: u64) -> (r: u64)
    requires
        m > 0,
        a < m,
        b < m,
    ensures
        r == (a + (m - b)) % (m as int),
{
    (ModNum::new(a as u128, m as u128) - ModNum::new(b as u128, m as u128)).a() as u64
}

/// Trusted: `*` between two `bare_metal_modulo::ModNum`.
///
/// The crate multiplies the two residues and reduces the product. It
/// panics if the moduli differ; here both operands are built with `m`. In
/// `u128` the product of two `u64` cannot overflow.
#[verifier::external_body]
fn modnum_mul(a: u64, b: u64, m: u64) -> (r: u64)
    requires
        m > 0,
        a < m,
        b < m,
    ensures
        r == (a * b) % (m as int),
{
    (ModNum::new(a as u128, m as u128) * ModNum::new(b as u128, m as u128)).a() as u64
}

/// Trusted: `num::traits::Pow::pow` on a `bare_metal_modulo::ModNum`.
///
/// The crate computes `a` to the power `e` modulo `m` by repeated squaring,
/// reducing after every multiplication; for `e == 0` it returns 1 reduced.
/// It panics on a negative exponent, which an unsigned one never is.
#[verifier::external_body]
fn modnum_pow(a: u64, e: u64, m: u64) -> (r: u64)
    requires
        m > 0,
        a < m,
    ensures
        r == pow(a as int, e as nat) % (m as int),
{
    ModNum::new(a as u128, m as u128).pow(e as u128).a() as u64
}

/// An integer together with its modulus, always held normalised.
#[derive(Clone, Copy, Debug, PartialEq, Eq, Structural)]
pub struct ModularValue {
    value: u64,
    modulus: u64,
}

impl ModularValue {
    /// The residue, a number in `[0, modulus)`.
    pub closed spec fn spec_value(&self) -> u64 {
        self.value
    }

    /// The modulus, a number above 1.
    pub closed spec fn spec_modulus(&self) -> u64 {
        self.modulus
    }

    /// Every value that executable code can hold is normalised.
    #[verifier::type_invariant]
    pub open spec fn well_formed(&self) -> bool {
        1 < self.spec_modulus() && self.spec_value() < self.spec_modulus()
    }

    /// Builds `v (mod modulus)`. A modulus of 0 or 1 is rejected.
    pub fn from(v: u64, modulus: u64) -> (r: Result<ModularValue, ConfigError>)
        ensures
            modulus <= 1 ==> r == Err::<ModularValue, ConfigError>(ConfigError::InvalidModulus),
            modulus > 1 ==> r is Ok && r->Ok_0.spec_modulus() == modulus && r->Ok_0.spec_value()
                == v % modulus,
    {
        if modulus <= 1 {
            Err(ConfigError::InvalidModulus)
        } else {
            Ok(ModularValue::reduce(v, modulus))
        }
    }

    /// Builds `v (mod modulus)` for a modulus already known to be valid.
    pub(crate) fn reduce(v: u64, modulus: u64) -> (r: ModularValue)
        requires
            modulus > 1,
        ensures
            r.spec_modulus() == modulus,
            r.spec_value() == v % modulus,
    {
        ModularValue { value: modnum_reduce(v, modulus), modulus }
    }

    /// The residue.
    #[verifier::when_used_as_spec(spec_value)]
    pub fn value(&self) -> (v: u64)
        ensures
            v == self.spec_value(),
            v < self.spec_modulus(),
    {
        proof {
            use_type_invariant(self);
        }
        self.value
    }

    /// The modulus.
    #[verifier::when_used_as_spec(spec_modulus)]
    pub fn modulus(&self) -> (m: u64)
        ensures
            m == self.spec_modulus(),
            m > 1,
    {
        proof {
            use_type_invariant(self);
        }
        self.modulus
    }

    /// `(self + rhs) mod modulus`.
    pub fn add(self, rhs: ModularValue) -> (r: ModularValue)
        requires
            self.spec_modulus() == rhs.spec_modulus(),
        ensures
            r.spec_modulus() == self.spec_modulus(),
            r.spec_value() == (self.spec_value() + rhs.spec_value()) % (self.spec_modulus() as int),
    {
        proof {
            use_type_invariant(self);
            use_type_invariant(rhs);
        }
        ModularValue { value: modnum_add(self.value, rhs.value, self.modulus), modulus: self.modulus }
    }

    /// `(self - rhs) mod modulus`, never negative: the modulus is added
    /// before the remainder is taken.
    pub fn sub(self, rhs: ModularValue) -> (r: ModularValue)
        requires
            self.spec_modulus() == rhs.spec_modulus(),
        ensures
            r.spec_modulus() == self.spec_modulus(),
            r.spec_value() == (self.spec_value() - rhs.spec_value()) % (self.spec_modulus() as int),
    {
        proof {
            use_type_invariant(self);
            use_type_invariant(rhs);
            lemma_mod_add_multiples_vanish(self.value - rhs.value, self.modulus as int);
        }
        ModularValue { value: modnum_sub(self.value, rhs.value, self.modulus), modulus: self.modulus }
    }

    /// `(self * rhs) mod modulus`.
    pub fn mul(self, rhs: ModularValue) -> (r: ModularValue)
        requires
            self.spec_modulus() == rhs.spec_modulus(),
        ensures
            r.spec_modulus() == self.spec_modulus(),
            r.spec_value() == (self.spec_value() * rhs.spec_value()) % (self.spec_modulus() as int),
    {
        proof {
            use_type_invariant(self);
            use_type_invariant(rhs);
        }
        ModularValue { value: modnum_mul(self.value, rhs.value, self.modulus), modulus: self.modulus }
    }

    /// `self` raised to `exp`, `mod modulus`; the zeroth power is 1.
    pub fn pow(self, exp: u64) -> (r: ModularValue)
        ensures
            r.spec_modulus() == self.spec_modulus(),
            r.spec_value() == pow(self.spec_value() as int, exp as nat) % (self.spec_modulus() as int),
    {
        proof {
            use_type_invariant(self);
        }
        ModularValue { value: modnum_pow(self.value, exp, self.modulus), modulus: self.modulus }
    }
}

/// Two modular values are the same exactly when residue and modulus agree.
pub proof fn lemma_equal_by_parts(a: ModularValue, b: ModularValue)
    ensures
        a == b <==> a.spec_value() == b.spec_value() && a.spec_modulus() == b.spec_modulus(),
{
}

} // verus!
