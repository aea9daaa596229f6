//! Checks that the bytes of an encoded class-group element form a valid form
//! `(a, b, c)` of the discriminant before any group arithmetic sees them.
//! An element is its coordinates `a` and `b`, each a big-endian two's
//! complement integer; it is valid for `Δ` when `a > 0` and `4a` divides
//! `b² - Δ` (so that `c = (b² - Δ) / 4a` is an integer).
use vstd::prelude::*;
use vstd::arithmetic::power::pow;
use crate::framing::{all_zero, leading_coordinate_is_zero};

verus! {

/// Unsigned big-endian value of `s`.
pub open spec fn be_value(s: Seq<u8>) -> nat
    decreases s.len(),
{
    if s.len() == 0 {
        0
    } else {
        be_value(s.drop_last()) * 256 + s.last() as nat
    }
}

/// Big-endian two's complement value of `s`.
pub open spec fn signed_value(s: Seq<u8>) -> int {
    if s.len() > 0 && s[0] >= 0x80 {
        be_value(s) - pow(256, s.len())
    } else {
        be_value(s) as int
    }
}

/// Number of binary digits of `n` (zero for zero).
pub open spec fn bit_len(n: nat) -> nat
    decreases n,
{
    if n == 0 {
        0
    } else {
        1 + bit_len(n / 2)
    }
}

/// The magnitude `|Δ|` of the discriminant derived from a challenge, as
/// big-endian bytes.
pub uninterp spec fn discriminant_of(challenge: Seq<u8>, bits: u16) -> Seq<u8>;

/// Coordinate width that the group library decodes with for the
/// discriminant of magnitude `d`.
pub open spec fn decode_width_of(d: nat) -> nat {
    ((if d == 0 { 1 } else { bit_len(d) }) + 16) / 16
}

/// The element `elem` (coordinates of `s` bytes each) is a valid form of the
/// discriminant `-d`.
pub open spec fn element_valid(elem: Seq<u8>, s: nat, d: nat) -> bool {
    let a = signed_value(elem.subrange(0, s as int));
    let b = signed_value(elem.subrange(s as int, 2 * s as int));
    a > 0 && (b * b + d) % (4 * a) == 0
}

/// Relies on `vdf::create_discriminant` (over classgroup's `Mpz`), negated
/// and exported by `Vec<u8>: From<&Mpz>` as big-endian bytes. It subtracts
/// one from `bits`.
#[verifier::external_body]
pub(crate) fn discriminant_magnitude(challenge: &[u8], bits: u16) -> (r: Vec<u8>)
    requires
        bits >= 1,
    ensures
        r@ == discriminant_of(challenge@, bits),
{
    let d: classgroup::gmp::mpz::Mpz = vdf::create_discriminant(challenge, bits);
    Vec::<u8>::from(&(-d))
}

/// Relies on `Mpz::bit_length` (GMP `mpz_sizeinbase` in base 2, exact for a
/// power-of-two base and 1 for zero), on the value imported big-endian.
#[verifier::external_body]
fn bit_size(x: &[u8]) -> (r: usize)
    ensures
        r == (if be_value(x@) == 0 { 1 } else { bit_len(be_value(x@)) }),
{
    classgroup::gmp::mpz::Mpz::from(x).bit_length()
}

/// Relies on `Mpz` multiplication, on values imported and exported big-endian.
#[verifier::external_body]
fn big_mul(x: &[u8], y: &[u8]) -> (r: Vec<u8>)
    ensures
        be_value(r@) == be_value(x@) * be_value(y@),
{
    let p = classgroup::gmp::mpz::Mpz::from(x) * classgroup::gmp::mpz::Mpz::from(y);
    Vec::<u8>::from(&p)
}

/// Relies on `Mpz` addition, on values imported and exported big-endian.
#[verifier::external_body]
fn big_add(x: &[u8], y: &[u8]) -> (r: Vec<u8>)
    ensures
        be_value(r@) == be_value(x@) + be_value(y@),
{
    let p = classgroup::gmp::mpz::Mpz::from(x) + classgroup::gmp::mpz::Mpz::from(y);
    Vec::<u8>::from(&p)
}

/// Relies on `Mpz` subtraction, on values imported and exported big-endian;
/// the export holds the magnitude, so `x >= y` is required.
#[verifier::external_body]
fn big_sub(x: &[u8], y: &[u8]) -> (r: Vec<u8>)
    requires
        be_value(x@) >= be_value(y@),
    ensures
        be_value(r@) == be_value(x@) - be_value(y@),
{
    let p = classgroup::gmp::mpz::Mpz::from(x) - classgroup::gmp::mpz::Mpz::from(y);
    Vec::<u8>::from(&p)
}

/// Relies on `Mpz` remainder (GMP `mpz_tdiv_r`, which divides by zero on a
/// zero modulus), on values imported and exported big-endian.
#[verifier::external_body]
fn big_rem(x: &[u8], m: &[u8]) -> (r: Vec<u8>)
    requires
        be_value(m@) > 0,
    ensures
        be_value(r@) == be_value(x@) % be_value(m@),
{
    let p = classgroup::gmp::mpz::Mpz::from(x) % classgroup::gmp::mpz::Mpz::from(m);
    Vec::<u8>::from(&p)
}

proof fn lemma_be_value_bound(s: Seq<u8>)
    ensures
        be_value(s) < pow(256, s.len()),
    decreases s.len(),
{
    reveal(pow);
    if s.len() > 0 {
        let t = s.drop_last();
        lemma_be_value_bound(t);
        let v = be_value(t);
        let p = pow(256, t.len());
        reveal(pow);
        assert(pow(256, s.len()) == 256 * p);
        assert(v * 256 + s.last() < 256 * p) by (nonlinear_arith)
            requires
                v < p,
                s.last() < 256,
        ;
    }
}

proof fn lemma_be_value_zero(s: Seq<u8>)
    ensures
        be_value(s) == 0 <==> all_zero(s),
    decreases s.len(),
{
    if s.len() > 0 {
        let t = s.drop_last();
        lemma_be_value_zero(t);
        if all_zero(s) {
            assert(all_zero(t)) by {
                assert forall|i: int| 0 <= i < t.len() implies #[trigger] t[i] == 0 by {
                    assert(s[i] == 0);
                }
            }
            assert(s.last() == s[s.len() - 1]);
        }
        if be_value(s) == 0 {
            assert(be_value(t) == 0 && s.last() == 0);
            assert forall|i: int| 0 <= i < s.len() implies #[trigger] s[i] == 0 by {
                if i < s.len() - 1 {
                    assert(t[i] == 0);
                }
            }
        }
    }
}

/// `256^n` as the bytes `1, 0, ..., 0`.
fn power_of_256(n: usize) -> (r: Vec<u8>)
    ensures
        be_value(r@) == pow(256, n as nat),
{
    let mut r: Vec<u8> = vec![1u8];
    assert(r@.drop_last() =~= Seq::<u8>::empty());
    proof {
        reveal(pow);
        assert(be_value(r@.drop_last()) == 0);
        assert(be_value(r@) == 1);
        assert(pow(256, 0) == 1);
    }
    let mut i: usize = 0;
    while i < n
        invariant
            i <= n,
            be_value(r@) == pow(256, i as nat),
        decreases n - i,
    {
        let ghost before = r@;
        r.push(0);
        assert(r@.drop_last() =~= before);
        proof {
            reveal(pow);
        }
        i += 1;
    }
    r
}

/// Whether `elem`, two coordinates of `s` bytes, is a valid form of the
/// discriminant `-d`.
pub fn element_is_valid(elem: &[u8], s: usize, d: &[u8]) -> (r: bool)
    requires
        s >= 1,
        elem@.len() == 2 * s,
    ensures
        r == element_valid(elem@, s as nat, be_value(d@)),
{
    let a = crate::framing::copy_range(elem, 0, s);
    let b = crate::framing::copy_range(elem, s, elem.len());
    proof {
        lemma_be_value_zero(a@);
        lemma_be_value_bound(b@);
    }
    if a[0] >= 0x80 {
        proof {
            lemma_be_value_bound(a@);
        }
        return false;
    }
    assert(a@.subrange(0, s as int) =~= a@);
    if leading_coordinate_is_zero(&a, s) {
        return false;
    }
    assert(be_value(a@) > 0);
    assert(signed_value(a@) == be_value(a@));
    let magnitude = if b[0] >= 0x80 {
        let top = power_of_256(s);
        big_sub(&top, &b)
    } else {
        b
    };
    let ghost bv = signed_value(b@);
    assert(be_value(magnitude@) * be_value(magnitude@) == bv * bv) by (nonlinear_arith)
        requires
            be_value(magnitude@) == bv || be_value(magnitude@) == -bv,
    ;
    let square = big_mul(&magnitude, &magnitude);
    let numerator = big_add(&square, d);
    let four: Vec<u8> = vec![4u8];
    assert(four@.drop_last() =~= Seq::<u8>::empty());
    assert(be_value(four@) == 4) by {
        assert(be_value(four@.drop_last()) == 0);
    }
    let four_a = big_mul(&four, &a);
    assert(be_value(four_a@) > 0) by (nonlinear_arith)
        requires
            be_value(four_a@) == 4 * be_value(a@),
            be_value(a@) > 0,
    ;
    let rem = big_rem(&numerator, &four_a);
    proof {
        lemma_be_value_zero(rem@);
    }
    let z = leading_coordinate_is_zero(&rem, rem.len());
    assert(rem@.subrange(0, rem@.len() as int) =~= rem@);
    z
}

/// The width the group library decodes with for the discriminant of
/// magnitude `d`; `None` where it would overflow.
pub fn decode_width(d: &[u8]) -> (r: Option<usize>)
    ensures
        r matches Some(w) ==> w as nat == decode_width_of(be_value(d@)),
        r is None ==> decode_width_of(be_value(d@)) > 0x1000,
{
    let n = bit_size(d);
    if n > usize::MAX - 16 {
        None
    } else {
        Some((n + 16) / 16)
    }
}

} // verus!
