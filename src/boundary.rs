//! Proof generation and checking for both schemes. Generation is `vdf`'s.
//! Before a proof reaches `vdf`'s verification, its framing is checked here
//! and every encoded element is checked to be a valid form of the challenge's
//! discriminant, so that malformed input is rejected rather than decoded.
use vstd::prelude::*;
use crate::codec::{be_value, decode_width, decode_width_of, discriminant_magnitude, discriminant_of, element_is_valid, element_valid};
use crate::framing::{coordinate_width, proof_len_of, split_proof, width_of};

verus! {

#[verifier::external_type_specification]
#[verifier::external_body]
pub struct ExInvalidIterations(vdf::InvalidIterations);

#[verifier::external_type_specification]
#[verifier::external_body]
pub struct ExInvalidProof(vdf::InvalidProof);

/// Which VDF construction a call uses.
#[derive(Clone, Copy, Debug, PartialEq, Eq, Structural)]
pub enum Scheme {
    Pietrzak,
    Wesolowski,
}

/// Why a proof could not be generated.
#[derive(Clone, Copy, Debug, PartialEq, Eq, Structural)]
pub enum GenerateError {
    /// The iteration count is outside the range the scheme allows.
    InvalidIterations,
    /// The bit length names no group whose elements the proof encoding can
    /// hold: zero, or one whose discriminant is wider than the coordinate
    /// width `S` allows.
    InvalidBitLength,
}

/// Largest iteration count the Wesolowski solver takes without aborting.
pub const MAX_ITERATIONS: u64 = 0x1f_ffff_ffff_ffff;

/// The Wesolowski proof that `vdf` computes.
pub uninterp spec fn wesolowski_proof_of(challenge: Seq<u8>, iterations: u64, bits: u16) -> Seq<u8>;

/// The Pietrzak proof that `vdf` computes.
pub uninterp spec fn pietrzak_proof_of(challenge: Seq<u8>, iterations: u64, bits: u16) -> Seq<u8>;

/// `vdf`'s verdict on a Wesolowski proof.
pub uninterp spec fn wesolowski_accepts(challenge: Seq<u8>, iterations: u64, proof: Seq<u8>, bits: u16) -> bool;

/// `vdf`'s verdict on a Pietrzak proof.
pub uninterp spec fn pietrzak_accepts(challenge: Seq<u8>, iterations: u64, proof: Seq<u8>, bits: u16) -> bool;

/// The iteration counts a Pietrzak proof may have: even and at least 66.
pub open spec fn pietrzak_iterations_ok(iterations: u64) -> bool {
    iterations % 2 == 0 && iterations >= 66
}

/// Both encoded elements of a `4S`-byte Wesolowski proof decode, at the
/// width `S`, to valid forms of the discriminant derived from `challenge`.
pub open spec fn elements_valid(challenge: Seq<u8>, proof: Seq<u8>, bits: u16) -> bool {
    let s = width_of(bits);
    let d = be_value(discriminant_of(challenge, bits));
    &&& decode_width_of(d) == s
    &&& element_valid(proof.subrange(0, 2 * s as int), s, d)
    &&& element_valid(proof.subrange(2 * s as int, 4 * s as int), s, d)
}

/// Every `2S`-byte chunk of a Pietrzak proof (its result `y`, then each
/// proof element) is a valid form of the discriminant of magnitude `d`.
pub open spec fn chunks_valid(proof: Seq<u8>, s: nat, d: nat) -> bool {
    forall|i: int| 0 <= i < proof.len() / (2 * s) ==> #[trigger] element_valid(
        proof.subrange(2 * s * i, 2 * s * i + 2 * s),
        s,
        d,
    )
}

/// The framing a Pietrzak proof must have before any element is decoded: a
/// valid iteration count, a whole number of `2S`-byte elements with at least
/// the result `y`, and a discriminant that decodes at width `S`.
pub open spec fn pietrzak_layout_ok(challenge: Seq<u8>, iterations: u64, proof: Seq<u8>, bits: u16) -> bool {
    let s = width_of(bits);
    &&& pietrzak_iterations_ok(iterations)
    &&& proof.len() >= 2 * s
    &&& proof.len() % (2 * s) == 0
    &&& decode_width_of(be_value(discriminant_of(challenge, bits))) == s
}

/// The discriminant derived from `challenge` decodes at the coordinate
/// width `S`, so that every reduced form of it fits in the encoding.
pub open spec fn group_width_ok(challenge: Seq<u8>, bits: u16) -> bool {
    bits >= 1 && decode_width_of(be_value(discriminant_of(challenge, bits))) == width_of(bits)
}

/// The iteration counts for which `scheme` generates a proof.
pub open spec fn iterations_ok(scheme: Scheme, iterations: u64) -> bool {
    match scheme {
        Scheme::Pietrzak => pietrzak_iterations_ok(iterations),
        Scheme::Wesolowski => iterations <= MAX_ITERATIONS && iterations <= usize::MAX,
    }
}

/// Relies on `vdf::WesolowskiVDF::solve`: it fails only for more than
/// `usize::MAX` iterations, and its proof is `y` then `pi`, each a reduced
/// form serialised (two's complement) into `2S` bytes, which is the one
/// solution `verify` accepts (the `VDF` trait's uniqueness of valid
/// solutions). Serialising panics where a coordinate does not fit in `S`
/// bytes, which the width condition excludes; `create_discriminant`
/// subtracts one from `bits`, and the solver asserts fewer than 2^53
/// iterations.
#[verifier::external_body]
fn wesolowski_solve(challenge: &[u8], iterations: u64, bits: u16) -> (r: Result<Vec<u8>, vdf::InvalidIterations>)
    requires
        group_width_ok(challenge@, bits),
        iterations <= MAX_ITERATIONS,
    ensures
        r.is_ok() <==> iterations <= usize::MAX,
        r matches Ok(p) ==> {
            &&& p@ == wesolowski_proof_of(challenge@, iterations, bits)
            &&& p@.len() == proof_len_of(bits)
            &&& elements_valid(challenge@, p@, bits)
            &&& wesolowski_accepts(challenge@, iterations, p@, bits)
        },
{
    vdf::VDF::solve(&vdf::VDFParams::new(vdf::WesolowskiVDFParams(bits)), challenge, iterations)
}

/// Relies on `vdf::PietrzakVDF::solve`: it fails exactly for an odd count or
/// one below 66 (`Iterations::new`). Its proof is `y` then the proof
/// elements, each a reduced form serialised into `2S` bytes, and is the one
/// solution `verify` accepts (the `VDF` trait's uniqueness of valid
/// solutions). Serialising panics where a coordinate does not fit in `S`
/// bytes, which the width condition excludes; `create_discriminant`
/// subtracts one from `bits`.
#[verifier::external_body]
fn pietrzak_solve(challenge: &[u8], iterations: u64, bits: u16) -> (r: Result<Vec<u8>, vdf::InvalidIterations>)
    requires
        group_width_ok(challenge@, bits),
    ensures
        r.is_ok() <==> pietrzak_iterations_ok(iterations),
        r matches Ok(p) ==> {
            &&& p@ == pietrzak_proof_of(challenge@, iterations, bits)
            &&& p@.len() >= 2 * width_of(bits)
            &&& p@.len() % (2 * width_of(bits)) == 0
            &&& chunks_valid(p@, width_of(bits), be_value(discriminant_of(challenge@, bits)))
            &&& pietrzak_accepts(challenge@, iterations, p@, bits)
        },
{
    vdf::VDF::solve(&vdf::VDFParams::new(vdf::PietrzakVDFParams(bits)), challenge, iterations)
}

/// Relies on `vdf::WesolowskiVDF::verify`: it rejects any proof whose length
/// is not `4S`. It decodes the elements at the width of the discriminant and
/// asserts (in debug builds) and divides on their being valid forms, so a
/// `4S`-byte proof must hold valid forms at that width; `create_discriminant`
/// subtracts one from `bits`.
#[verifier::external_body]
fn wesolowski_check(challenge: &[u8], iterations: u64, proof: &[u8], bits: u16) -> (r: Result<(), vdf::InvalidProof>)
    requires
        bits >= 1,
        proof@.len() == proof_len_of(bits) ==> elements_valid(challenge@, proof@, bits),
    ensures
        r.is_ok() == wesolowski_accepts(challenge@, iterations, proof@, bits),
        proof@.len() != proof_len_of(bits) ==> r.is_err(),
{
    vdf::VDF::verify(&vdf::VDFParams::new(vdf::WesolowskiVDFParams(bits)), challenge, iterations, proof)
}

/// Relies on `vdf::PietrzakVDF::verify`: it rejects an iteration count that
/// `Iterations::new` refuses, a proof shorter than `2S`, a discriminant that
/// does not decode at width `S` and a length after `y` that is not a whole
/// number of elements. Only then does it decode each `2S`-byte chunk, which
/// must therefore be a valid form; `create_discriminant` subtracts one from
/// `bits`.
#[verifier::external_body]
fn pietrzak_check(challenge: &[u8], iterations: u64, proof: &[u8], bits: u16) -> (r: Result<(), vdf::InvalidProof>)
    requires
        bits >= 1,
        pietrzak_layout_ok(challenge@, iterations, proof@, bits) ==> chunks_valid(
            proof@,
            width_of(bits),
            be_value(discriminant_of(challenge@, bits)),
        ),
    ensures
        r.is_ok() == pietrzak_accepts(challenge@, iterations, proof@, bits),
        !pietrzak_layout_ok(challenge@, iterations, proof@, bits) ==> r.is_err(),
{
    vdf::VDF::verify(&vdf::VDFParams::new(vdf::PietrzakVDFParams(bits)), challenge, iterations, proof)
}

/// The scheme that the boundary's flag selects.
pub open spec fn scheme_of(is_pietrzak: bool) -> Scheme {
    if is_pietrzak {
        Scheme::Pietrzak
    } else {
        Scheme::Wesolowski
    }
}

/// What `verify_proof` returns.
pub open spec fn verdict(scheme: Scheme, challenge: Seq<u8>, iterations: u64, proof: Seq<u8>, bits: u16) -> bool {
    bits >= 1 && match scheme {
        Scheme::Pietrzak => {
            &&& pietrzak_layout_ok(challenge, iterations, proof, bits)
            &&& chunks_valid(proof, width_of(bits), be_value(discriminant_of(challenge, bits)))
            &&& pietrzak_accepts(challenge, iterations, proof, bits)
        },
        Scheme::Wesolowski => {
            &&& proof.len() == proof_len_of(bits)
            &&& elements_valid(challenge, proof, bits)
            &&& wesolowski_accepts(challenge, iterations, proof, bits)
        },
    }
}

/// Whether the discriminant derived from `challenge` decodes at the
/// coordinate width of `bits`.
fn group_width_holds(challenge: &[u8], bits: u16) -> (r: bool)
    ensures
        r == group_width_ok(challenge@, bits),
{
    if bits == 0 {
        return false;
    }
    let d = discriminant_magnitude(challenge, bits);
    match decode_width(&d) {
        None => false,
        Some(w) => w == coordinate_width(bits),
    }
}

/// Generates a proof that `iterations` sequential squarings were performed
/// on the group derived from `challenge`. A generated proof is one that
/// `verify_proof` accepts.
pub fn generate_proof(scheme: Scheme, iterations: u64, challenge: &[u8], bits: u16) -> (r: Result<Vec<u8>, GenerateError>)
    ensures
        !group_width_ok(challenge@, bits) ==> r == Err::<Vec<u8>, GenerateError>(GenerateError::InvalidBitLength),
        group_width_ok(challenge@, bits) && !iterations_ok(scheme, iterations) ==> r == Err::<Vec<u8>, GenerateError>(
            GenerateError::InvalidIterations,
        ),
        group_width_ok(challenge@, bits) && iterations_ok(scheme, iterations) ==> r.is_ok(),
        r matches Ok(p) ==> verdict(scheme, challenge@, iterations, p@, bits),
        r matches Ok(p) ==> p@ == match scheme {
            Scheme::Pietrzak => pietrzak_proof_of(challenge@, iterations, bits),
            Scheme::Wesolowski => wesolowski_proof_of(challenge@, iterations, bits),
        },
        scheme == Scheme::Wesolowski && r.is_ok() ==> r->Ok_0@.len() == proof_len_of(bits),
{
    if !group_width_holds(challenge, bits) {
        return Err(GenerateError::InvalidBitLength);
    }
    let solved = match scheme {
        Scheme::Pietrzak => pietrzak_solve(challenge, iterations, bits),
        Scheme::Wesolowski => {
            if iterations > MAX_ITERATIONS {
                return Err(GenerateError::InvalidIterations);
            }
            wesolowski_solve(challenge, iterations, bits)
        },
    };
    match solved {
        Ok(p) => Ok(p),
        Err(_) => Err(GenerateError::InvalidIterations),
    }
}

/// Checks a proof. A zero `bits` names no group and is rejected. For
/// Wesolowski the length must be exactly `4S` and both encoded elements must
/// be valid forms of the challenge's discriminant at width `S`, else the
/// proof is rejected before any group arithmetic. The short verification
/// equation itself, with its Fiat-Shamir prime and `2^t mod l`, is then
/// evaluated by `vdf` (which derives its prime from the encodings of `x` and
/// `y`).
pub fn verify_proof(scheme: Scheme, iterations: u64, challenge: &[u8], proof: &[u8], bits: u16) -> (r: bool)
    ensures
        r == verdict(scheme, challenge@, iterations, proof@, bits),
{
    if bits == 0 {
        return false;
    }
    match scheme {
        Scheme::Pietrzak => verify_pietrzak(challenge, iterations, proof, bits),
        Scheme::Wesolowski => {
            let s = coordinate_width(bits);
            match split_proof(proof, bits) {
                None => false,
                Some((y, pi)) => {
                    assert(y@ =~= proof@.subrange(0, 2 * s as int));
                    assert(pi@ =~= proof@.subrange(2 * s as int, 4 * s as int));
                    assert(y@ + pi@ =~= proof@);
                    if elements_are_valid(challenge, &y, &pi, bits) {
                        wesolowski_check(challenge, iterations, proof, bits).is_ok()
                    } else {
                        false
                    }
                },
            }
        },
    }
}

/// Checks a Pietrzak proof: its layout and elements first, then `vdf`'s
/// verification.
fn verify_pietrzak(challenge: &[u8], iterations: u64, proof: &[u8], bits: u16) -> (r: bool)
    requires
        bits >= 1,
    ensures
        r == verdict(Scheme::Pietrzak, challenge@, iterations, proof@, bits),
{
    if pietrzak_framing_holds(challenge, iterations, proof, bits) {
        pietrzak_check(challenge, iterations, proof, bits).is_ok()
    } else {
        false
    }
}

/// Whether a Pietrzak proof has the framing `pietrzak_layout_ok` and every
/// one of its elements is a valid form.
fn pietrzak_framing_holds(challenge: &[u8], iterations: u64, proof: &[u8], bits: u16) -> (r: bool)
    requires
        bits >= 1,
    ensures
        r == (pietrzak_layout_ok(challenge@, iterations, proof@, bits) && chunks_valid(
            proof@,
            width_of(bits),
            be_value(discriminant_of(challenge@, bits)),
        )),
{
    if iterations % 2 != 0 || iterations < 66 {
        return false;
    }
    let s = coordinate_width(bits);
    let step = 2 * s;
    if proof.len() < step || proof.len() % step != 0 {
        return false;
    }
    let d = discriminant_magnitude(challenge, bits);
    match decode_width(&d) {
        None => return false,
        Some(w) => {
            if w != s {
                return false;
            }
        },
    }
    let ghost n = (proof@.len() as int) / (step as int);
    proof {
        vstd::arithmetic::div_mod::lemma_fundamental_div_mod(proof@.len() as int, step as int);
    }
    let mut off: usize = 0;
    let ghost mut i: int = 0;
    while off < proof.len()
        invariant
            step == 2 * s,
            s == width_of(bits),
            d@ == discriminant_of(challenge@, bits),
            s >= 1,
            proof@.len() == step * n,
            n == (proof@.len() as int) / (step as int),
            off == step * i,
            0 <= i <= n,
            forall|k: int| 0 <= k < i ==> #[trigger] element_valid(
                proof@.subrange(step * k, step * k + step),
                s as nat,
                be_value(d@),
            ),
        decreases proof@.len() - off,
    {
        assert(i < n) by (nonlinear_arith)
            requires
                off == step * i,
                off < step * n,
                step > 0,
        ;
        assert(off + step <= proof@.len()) by (nonlinear_arith)
            requires
                off == step * i,
                i + 1 <= n,
                proof@.len() == step * n,
                step > 0,
        ;
        let chunk = crate::framing::copy_range(proof, off, off + step);
        if !element_is_valid(&chunk, s, &d) {
            assert(!chunks_valid(proof@, width_of(bits), be_value(d@))) by {
                assert(2 * width_of(bits) * i == step * i);
                assert(proof@.subrange(2 * width_of(bits) * i, 2 * width_of(bits) * i + 2 * width_of(bits))
                    == chunk@);
                assert(i < proof@.len() / (2 * width_of(bits)));
                assert(!element_valid(
                    proof@.subrange(2 * width_of(bits) * i, 2 * width_of(bits) * i + 2 * width_of(bits)),
                    width_of(bits),
                    be_value(d@),
                ));
            }
            return false;
        }
        assert(step * (i + 1) == step * i + step) by (nonlinear_arith);
        off = off + step;
        proof {
            i = i + 1;
        }
    }
    assert(i == n) by (nonlinear_arith)
        requires
            off == step * i,
            off >= step * n,
            i <= n,
            step > 0,
    ;
    assert(chunks_valid(proof@, width_of(bits), be_value(d@))) by {
        assert forall|k: int| 0 <= k < proof@.len() / (2 * width_of(bits)) implies #[trigger] element_valid(
            proof@.subrange(2 * width_of(bits) * k, 2 * width_of(bits) * k + 2 * width_of(bits)),
            width_of(bits),
            be_value(d@),
        ) by {
            assert(2 * width_of(bits) * k == step * k);
        }
    }
    true
}

/// Decodes `y` and `pi` as the group library would and checks that both are
/// valid forms of the discriminant derived from `challenge`.
fn elements_are_valid(challenge: &[u8], y: &[u8], pi: &[u8], bits: u16) -> (r: bool)
    requires
        bits >= 1,
        y@.len() == pi@.len() == 2 * width_of(bits),
    ensures
        r == elements_valid(challenge@, y@ + pi@, bits),
{
    let s = coordinate_width(bits);
    let d = discriminant_magnitude(challenge, bits);
    let ghost whole = y@ + pi@;
    assert(whole.subrange(0, 2 * s as int) =~= y@);
    assert(whole.subrange(2 * s as int, 4 * s as int) =~= pi@);
    match decode_width(&d) {
        None => false,
        Some(w) => w == s && element_is_valid(y, s, &d) && element_is_valid(pi, s, &d),
    }
}

/// Checks a proof with `vdf`'s own verification alone, guarding only the
/// inputs on which it would abort. It reaches the same verdict as
/// `verify_proof` on every input, which its contract states.
pub fn verify_proof_slow(scheme: Scheme, iterations: u64, challenge: &[u8], proof: &[u8], bits: u16) -> (r: bool)
    ensures
        r == verdict(scheme, challenge@, iterations, proof@, bits),
{
    if bits == 0 {
        return false;
    }
    match scheme {
        Scheme::Pietrzak => verify_pietrzak(challenge, iterations, proof, bits),
        Scheme::Wesolowski => {
            let s = coordinate_width(bits);
            if proof.len() == 4 * s {
                let y = crate::framing::copy_range(proof, 0, 2 * s);
                let pi = crate::framing::copy_range(proof, 2 * s, 4 * s);
                assert(y@ + pi@ =~= proof@);
                if !elements_are_valid(challenge, &y, &pi, bits) {
                    return false;
                }
            }
            wesolowski_check(challenge, iterations, proof, bits).is_ok()
        },
    }
}

/// A Wesolowski proof whose length is not `4S` is rejected.
pub proof fn lemma_wrong_length_rejected(challenge: Seq<u8>, iterations: u64, proof: Seq<u8>, bits: u16)
    requires
        proof.len() != proof_len_of(bits),
    ensures
        !verdict(Scheme::Wesolowski, challenge, iterations, proof, bits),
{
}

/// Boundary form of `generate_proof`, with the scheme given as a flag.
pub fn generate_impl(iterations: u64, challenge: Vec<u8>, int_size_bits: u16, is_pietrzak: bool) -> (r: Result<Vec<u8>, GenerateError>)
    ensures
        !group_width_ok(challenge@, int_size_bits) ==> r == Err::<Vec<u8>, GenerateError>(GenerateError::InvalidBitLength),
        group_width_ok(challenge@, int_size_bits) && !iterations_ok(scheme_of(is_pietrzak), iterations) ==> r == Err::<
            Vec<u8>,
            GenerateError,
        >(GenerateError::InvalidIterations),
        group_width_ok(challenge@, int_size_bits) && iterations_ok(scheme_of(is_pietrzak), iterations) ==> r.is_ok(),
        r matches Ok(p) ==> verdict(scheme_of(is_pietrzak), challenge@, iterations, p@, int_size_bits),
        r matches Ok(p) ==> p@ == (if is_pietrzak {
            pietrzak_proof_of(challenge@, iterations, int_size_bits)
        } else {
            wesolowski_proof_of(challenge@, iterations, int_size_bits)
        }),
        !is_pietrzak && r.is_ok() ==> r->Ok_0@.len() == proof_len_of(int_size_bits),
{
    let scheme = if is_pietrzak { Scheme::Pietrzak } else { Scheme::Wesolowski };
    generate_proof(scheme, iterations, challenge.as_slice(), int_size_bits)
}

/// Boundary form of `verify_proof`, with the scheme given as a flag.
pub fn verify_impl(iterations: u64, challenge: &[u8], proof: &[u8], int_size_bits: u16, is_pietrzak: bool) -> (r: bool)
    ensures
        r == verdict(scheme_of(is_pietrzak), challenge@, iterations, proof@, int_size_bits),
{
    let scheme = if is_pietrzak { Scheme::Pietrzak } else { Scheme::Wesolowski };
    verify_proof(scheme, iterations, challenge, proof, int_size_bits)
}

/// Boundary form of `verify_proof_slow`, with the scheme given as a flag.
pub fn verify_slow_impl(iterations: u64, challenge: &[u8], proof: &[u8], int_size_bits: u16, is_pietrzak: bool) -> (r: bool)
    ensures
        r == verdict(scheme_of(is_pietrzak), challenge@, iterations, proof@, int_size_bits),
{
    let scheme = if is_pietrzak { Scheme::Pietrzak } else { Scheme::Wesolowski };
    verify_proof_slow(scheme, iterations, challenge, proof, int_size_bits)
}

} // verus!
