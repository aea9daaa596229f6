//! `2^t mod l` by square-and-multiply on machine words.
use vstd::prelude::*;
use vstd::arithmetic::power::{pow, lemma_pow_multiplies, lemma_pow_mod_noop, lemma_pow0, lemma_pow1, lemma_pow_adds};
use vstd::arithmetic::div_mod::lemma_mul_mod_noop_general;
use vstd::arithmetic::div_mod::lemma_small_mod;

verus! {

/// The value that `pow2_mod(t, l)` computes.
pub open spec fn pow2_mod_spec(t: nat, l: nat) -> int
    recommends
        l > 0,
{
    pow(2, t) % (l as int)
}

/// One halving step of the exponent keeps `acc * base^e` fixed modulo `m`.
proof fn lemma_halving_step(acc: int, base: int, e: nat, m: int)
    requires
        m > 0,
    ensures
        e % 2 == 1 ==> ((acc * base) % m) * pow((base * base) % m, e / 2) % m
            == (acc * pow(base, e)) % m,
        e % 2 == 0 ==> acc * pow((base * base) % m, e / 2) % m == (acc * pow(base, e)) % m,
{
    let k: nat = e / 2;
    lemma_pow_multiplies(base, 2, k);
    lemma_pow_adds(base, 1, 1);
    lemma_pow1(base);
    assert(pow(base, 2) == base * base);
    assert(pow(base * base, k) == pow(base, 2 * k));
    lemma_pow_mod_noop(base * base, k, m);
    let p = pow(base * base, k);
    let q = pow((base * base) % m, k);
    assert(q % m == p % m);
    if e % 2 == 1 {
        lemma_pow_adds(base, 1, 2 * k);
        assert(e == 1 + 2 * k);
        assert(pow(base, e) == base * p);
        lemma_mul_mod_noop_general(acc * base, q, m);
        lemma_mul_mod_noop_general(acc * base, p, m);
        assert((acc * base) * p == acc * (base * p)) by (nonlinear_arith);
    } else {
        assert(e == 2 * k);
        lemma_mul_mod_noop_general(acc, q, m);
        lemma_mul_mod_noop_general(acc, p, m);
    }
}

/// Computes `2^t mod l` with O(log t) multiplications.
pub fn pow2_mod(t: u64, l: u64) -> (r: u64)
    requires
        l > 0,
    ensures
        r as int == pow2_mod_spec(t as nat, l as nat),
        r < l,
{
    let m: u128 = l as u128;
    let mut acc: u128 = 1u128 % m;
    let mut base: u128 = 2u128 % m;
    let mut e: u64 = t;
    proof {
        lemma_pow_mod_noop(2int, t as nat, l as int);
        lemma_mul_mod_noop_general(1, pow(2int % (l as int), t as nat), l as int);
    }
    while e > 0
        invariant
            m == l as u128,
            m > 0,
            acc < m,
            base < m,
            (acc as int * pow(base as int, e as nat)) % (m as int) == pow(2, t as nat) % (l as int),
        decreases e,
    {
        proof {
            lemma_halving_step(acc as int, base as int, e as nat, m as int);
        }
        assert(acc * base <= (m - 1) * (m - 1)) by (nonlinear_arith)
            requires
                acc < m,
                base < m,
        ;
        assert(base * base <= (m - 1) * (m - 1)) by (nonlinear_arith)
            requires
                base < m,
        ;
        assert((m - 1) * (m - 1) <= 0xffff_ffff_ffff_ffff * 0xffff_ffff_ffff_ffffu128) by (nonlinear_arith)
            requires
                m <= 0xffff_ffff_ffff_ffff,
        ;
        if e % 2 == 1 {
            acc = (acc * base) % m;
        }
        base = (base * base) % m;
        e = e / 2;
    }
    proof {
        lemma_pow0(base as int);
        assert(acc as int * pow(base as int, e as nat) == acc as int);
        lemma_small_mod(acc as nat, m as nat);
    }
    acc as u64
}

} // verus!
