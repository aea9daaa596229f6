//! Fiat-Shamir hash-to-prime: maps a transcript to a 64-bit odd prime of at
//! least 2^16 by hashing it with an incrementing counter. This is a
//! standalone component: `vdf`'s verification derives its own prime.
use vstd::prelude::*;
use crate::modpow::{pow2_mod, pow2_mod_spec};

verus! {

/// The SHA-256 digest of `data`.
pub uninterp spec fn sha256_of(data: Seq<u8>) -> Seq<u8>;

/// The answer of the probabilistic primality test on `n`.
pub uninterp spec fn prime_test_of(n: u64) -> bool;

/// Relies on sha2's `Sha256::digest`: a 32-byte digest that depends on the
/// input bytes alone.
#[verifier::external_body]
fn sha256(data: &[u8]) -> (r: Vec<u8>)
    ensures
        r@ == sha256_of(data@),
        r@.len() == 32,
{
    <sha2::Sha256 as sha2::Digest>::digest(data).to_vec()
}

/// Relies on classgroup's `BigNum::probab_prime` for `Mpz`, which runs GMP's
/// `mpz_probab_prime_p` (at least 256 rounds) and accepts unless GMP answers
/// "definitely non-prime": so every prime passes.
#[verifier::external_body]
fn prime_test(n: u64) -> (r: bool)
    ensures
        r == prime_test_of(n),
        is_prime(n as nat) ==> r,
{
    classgroup::BigNum::probab_prime(&classgroup::gmp::mpz::Mpz::from(n), 2)
}

/// `n` is a prime number.
pub open spec fn is_prime(n: nat) -> bool {
    n >= 2 && forall|d: nat| 2 <= d < n ==> #[trigger] (n % d) != 0
}

/// Smallest value that the oracle may return.
pub const MIN_PRIME: u64 = 65536;

/// The eight little-endian bytes of `j`.
pub open spec fn le_bytes_of(j: u64) -> Seq<u8> {
    seq![
        (j % 0x100) as u8,
        ((j / 0x100) % 0x100) as u8,
        ((j / 0x1_0000) % 0x100) as u8,
        ((j / 0x100_0000) % 0x100) as u8,
        ((j / 0x1_0000_0000) % 0x100) as u8,
        ((j / 0x100_0000_0000) % 0x100) as u8,
        ((j / 0x1_0000_0000_0000) % 0x100) as u8,
        ((j / 0x100_0000_0000_0000) % 0x100) as u8,
    ]
}

/// The integer whose little-endian encoding is the first eight bytes of `d`.
pub open spec fn le_value_of(d: Seq<u8>) -> int
    recommends
        d.len() >= 8,
{
    d[0] as int + d[1] as int * 0x100 + d[2] as int * 0x1_0000 + d[3] as int * 0x100_0000
        + d[4] as int * 0x1_0000_0000 + d[5] as int * 0x100_0000_0000
        + d[6] as int * 0x1_0000_0000_0000 + d[7] as int * 0x100_0000_0000_0000
}

/// `c` with its lowest bit set.
pub open spec fn force_odd(c: int) -> int {
    if c % 2 == 0 {
        c + 1
    } else {
        c
    }
}

/// The candidate tried at counter `j`.
pub open spec fn candidate_of(transcript: Seq<u8>, j: u64) -> int {
    force_odd(le_value_of(sha256_of(transcript + le_bytes_of(j))))
}

/// A candidate the oracle accepts.
pub open spec fn accepted(c: int) -> bool {
    MIN_PRIME <= c <= u64::MAX && prime_test_of(c as u64)
}

/// The first accepted candidate at counter `j` or later.
pub open spec fn first_prime_from(transcript: Seq<u8>, j: int) -> Option<u64>
    decreases u64::MAX + 1 - j,
{
    if j < 0 || j > u64::MAX {
        None
    } else if accepted(candidate_of(transcript, j as u64)) {
        Some(candidate_of(transcript, j as u64) as u64)
    } else {
        first_prime_from(transcript, j + 1)
    }
}

/// What `hash_to_prime` returns for `transcript`: the candidate at the least
/// counter whose candidate is accepted; `None` only if no counter of the 2^64
/// has one.
pub open spec fn prime_for(transcript: Seq<u8>) -> Option<u64> {
    first_prime_from(transcript, 0)
}

fn le_bytes(j: u64) -> (r: Vec<u8>)
    ensures
        r@ == le_bytes_of(j),
{
    let r: Vec<u8> = vec![
        (j % 0x100) as u8,
        ((j / 0x100) % 0x100) as u8,
        ((j / 0x1_0000) % 0x100) as u8,
        ((j / 0x100_0000) % 0x100) as u8,
        ((j / 0x1_0000_0000) % 0x100) as u8,
        ((j / 0x100_0000_0000) % 0x100) as u8,
        ((j / 0x1_0000_0000_0000) % 0x100) as u8,
        ((j / 0x100_0000_0000_0000) % 0x100) as u8,
    ];
    assert(r@ =~= le_bytes_of(j));
    r
}

fn le_value(d: &Vec<u8>) -> (r: u64)
    requires
        d@.len() >= 8,
    ensures
        r as int == le_value_of(d@),
{
    d[0] as u64 + d[1] as u64 * 0x100 + d[2] as u64 * 0x1_0000 + d[3] as u64 * 0x100_0000
        + d[4] as u64 * 0x1_0000_0000 + d[5] as u64 * 0x100_0000_0000
        + d[6] as u64 * 0x1_0000_0000_0000 + d[7] as u64 * 0x100_0000_0000_0000
}

/// `a` followed by `b`.
fn concat(a: &[u8], b: &[u8]) -> (r: Vec<u8>)
    ensures
        r@ == a@ + b@,
{
    let mut r: Vec<u8> = Vec::new();
    let mut i: usize = 0;
    while i < a.len()
        invariant
            i <= a@.len(),
            r@ == a@.subrange(0, i as int),
        decreases a@.len() - i,
    {
        r.push(a[i]);
        i += 1;
        assert(r@ =~= a@.subrange(0, i as int));
    }
    let mut k: usize = 0;
    while k < b.len()
        invariant
            k <= b@.len(),
            r@ == a@ + b@.subrange(0, k as int),
        decreases b@.len() - k,
    {
        r.push(b[k]);
        k += 1;
        assert(r@ =~= a@ + b@.subrange(0, k as int));
    }
    assert(a@.subrange(0, a@.len() as int) =~= a@);
    assert(b@.subrange(0, b@.len() as int) =~= b@);
    r
}

/// The candidate at counter `j`: the digest of `transcript || le(j)`, read
/// as a little-endian integer from its first eight bytes, made odd.
pub fn candidate(transcript: &[u8], j: u64) -> (r: u64)
    ensures
        r as int == candidate_of(transcript@, j),
{
    let counter = le_bytes(j);
    let input = concat(transcript, counter.as_slice());
    let digest = sha256(&input);
    let c = le_value(&digest);
    if c % 2 == 0 {
        c + 1
    } else {
        c
    }
}

/// Derives the Fiat-Shamir prime of `transcript`: tries counters 0, 1, 2, ...
/// and returns the first candidate that is at least 2^16 and passes the
/// primality test. The counter runs over all of `u64`; `None` would mean
/// that no counter gave a prime.
pub fn hash_to_prime(transcript: &[u8]) -> (r: Option<u64>)
    ensures
        r == prime_for(transcript@),
        r matches Some(p) ==> p % 2 == 1 && p >= MIN_PRIME && prime_test_of(p),
{
    let mut j: u64 = 0;
    loop
        invariant
            first_prime_from(transcript@, 0) == first_prime_from(transcript@, j as int),
        decreases u64::MAX - j,
    {
        let c = candidate(transcript, j);
        let passed = c >= MIN_PRIME && prime_test(c);
        assert(passed == accepted(c as int));
        if passed {
            return Some(c);
        }
        if j == u64::MAX {
            assert(first_prime_from(transcript@, j + 1) == None::<u64>);
            return None;
        }
        j += 1;
    }
}

/// Every answer of the oracle is odd, at least 2^16 and passes the
/// primality test, and equal transcripts get equal answers.
pub proof fn lemma_prime_for_valid(transcript: Seq<u8>, other: Seq<u8>)
    ensures
        prime_for(transcript) matches Some(p) ==> p % 2 == 1 && p >= MIN_PRIME && prime_test_of(p),
        transcript == other ==> prime_for(transcript) == prime_for(other),
{
    lemma_first_prime_from_valid(transcript, 0);
}

proof fn lemma_first_prime_from_valid(transcript: Seq<u8>, j: int)
    ensures
        first_prime_from(transcript, j) matches Some(p) ==> p % 2 == 1 && p >= MIN_PRIME && prime_test_of(p),
    decreases u64::MAX + 1 - j,
{
    if 0 <= j <= u64::MAX && !accepted(candidate_of(transcript, j as u64)) {
        lemma_first_prime_from_valid(transcript, j + 1);
    }
}

/// The exponents of the short verification equation `pi^l * x^r == y`: the
/// prime `l` of the transcript `challenge || pi_bytes` (the encoded proof
/// element only, never `y`) and `r = 2^t mod l`.
pub fn verification_exponents(challenge: &[u8], pi_bytes: &[u8], t: u64) -> (r: Option<(u64, u64)>)
    ensures
        r is None <==> prime_for(challenge@ + pi_bytes@) is None,
        r matches Some((l, e)) ==> prime_for(challenge@ + pi_bytes@) == Some(l)
            && e as int == pow2_mod_spec(t as nat, l as nat),
{
    let transcript = concat(challenge, pi_bytes);
    match hash_to_prime(&transcript) {
        None => None,
        Some(l) => Some((l, pow2_mod(t, l))),
    }
}

} // verus!
