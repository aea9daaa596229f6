use vdf_wasm::codec::{decode_width, element_is_valid};
use vdf_wasm::framing::{coordinate_width, leading_coordinate_is_zero, proof_length, split_proof};
use vdf_wasm::modpow::pow2_mod;
use vdf_wasm::oracle::{candidate, hash_to_prime, verification_exponents, MIN_PRIME};

fn mul_mod(a: u64, b: u64, m: u64) -> u64 {
    ((a as u128 * b as u128) % m as u128) as u64
}

/// 2^t mod l by doubling t times.
fn naive_pow2(t: u64, l: u64) -> u64 {
    let mut r = 1 % l;
    for _ in 0..t {
        r = mul_mod(r, 2, l);
    }
    r
}

/// 2^t mod l as the product of the repeated squares 2^(2^k) for the set bits of t.
fn squares_pow2(t: u64, l: u64) -> u64 {
    let mut r = 1 % l;
    let mut sq = 2 % l;
    for k in 0..64 {
        if (t >> k) & 1 == 1 {
            r = mul_mod(r, sq, l);
        }
        sq = mul_mod(sq, sq, l);
    }
    r
}

fn is_prime(n: u64) -> bool {
    if n < 2 {
        return false;
    }
    let bases = [2u64, 3, 5, 7, 11, 13, 17, 19, 23, 29, 31, 37];
    for &p in bases.iter() {
        if n % p == 0 {
            return n == p;
        }
    }
    let mut d = n - 1;
    let mut s = 0;
    while d % 2 == 0 {
        d /= 2;
        s += 1;
    }
    'outer: for &a in bases.iter() {
        let mut x = 1u64;
        let mut base = a % n;
        let mut e = d;
        while e > 0 {
            if e & 1 == 1 {
                x = mul_mod(x, base, n);
            }
            base = mul_mod(base, base, n);
            e >>= 1;
        }
        if x == 1 || x == n - 1 {
            continue;
        }
        for _ in 1..s {
            x = mul_mod(x, x, n);
            if x == n - 1 {
                continue 'outer;
            }
        }
        return false;
    }
    true
}

#[test]
fn pow2_mod_matches_naive_on_small_exponents() {
    for &l in [1u64, 2, 3, 7, 65537, 1_000_003, u64::MAX].iter() {
        for t in 0..200u64 {
            assert_eq!(pow2_mod(t, l), naive_pow2(t, l));
        }
    }
}

#[test]
fn pow2_mod_edge_exponents() {
    assert_eq!(pow2_mod(0, 65537), 1);
    assert_eq!(pow2_mod(1, 65537), 2);
    assert_eq!(pow2_mod(0, 1), 0);
    let big = (1u64 << 63) - 1;
    assert_eq!(pow2_mod(big, 65537), 32769);
    assert_eq!(pow2_mod(big, 65537), squares_pow2(big, 65537));
    assert_eq!(pow2_mod(big, 8664066843007240877), 6005264281455191889);
    assert_eq!(pow2_mod(1000, 8664066843007240877), 1302926315670314286);
    for &l in [65537u64, 4294967311, u64::MAX, 8664066843007240877].iter() {
        for &t in [0u64, 1, 2, 63, 64, 65, 1000, big, u64::MAX].iter() {
            assert_eq!(pow2_mod(t, l), squares_pow2(t, l));
        }
    }
}

#[test]
fn candidate_hashes_transcript_and_counter() {
    assert_eq!(candidate(b"", 0), 8794265229978523055);
    assert_eq!(candidate(b"test", 0), 18309517116052458681);
    assert_eq!(candidate(b"test", 1), 4522482610319384589);
}

#[test]
fn hash_to_prime_known_values() {
    assert_eq!(hash_to_prime(b"test"), Some(8664066843007240877));
    assert_eq!(hash_to_prime(b""), Some(5577799452076260811));
    assert_eq!(hash_to_prime(&[1, 2, 3]), Some(9501868209475118483));
}

#[test]
fn hash_to_prime_is_deterministic_and_valid() {
    for n in 0..40u8 {
        let transcript: Vec<u8> = (0..n).map(|i| i.wrapping_mul(37) ^ n).collect();
        let p = hash_to_prime(&transcript).unwrap();
        assert_eq!(hash_to_prime(&transcript), Some(p));
        assert_eq!(p % 2, 1);
        assert!(p >= MIN_PRIME);
        assert!(is_prime(p));
    }
}

#[test]
fn verification_exponents_use_challenge_and_proof_element() {
    let (l, r) = verification_exponents(b"te", b"st", 1000).unwrap();
    assert_eq!(l, 8664066843007240877);
    assert_eq!(r, 1302926315670314286);
    let (l2, _) = verification_exponents(b"test", b"", 0).unwrap();
    assert_eq!(l2, l);
    let (l3, r3) = verification_exponents(b"test", b"x", 0).unwrap();
    assert_ne!(l3, l);
    assert_eq!(r3, 1);
}

#[test]
fn coordinate_width_examples() {
    assert_eq!(coordinate_width(64), 5);
    assert_eq!(coordinate_width(16), 2);
    assert_eq!(coordinate_width(0), 1);
    assert_eq!(coordinate_width(2048), 129);
    assert_eq!(coordinate_width(u16::MAX), 4096);
    assert_eq!(proof_length(64), 20);
    assert_eq!(proof_length(1024), 260);
}

#[test]
fn split_proof_checks_length() {
    let blob: Vec<u8> = (0..20u8).collect();
    let (y, pi) = split_proof(&blob, 64).unwrap();
    assert_eq!(y, (0..10u8).collect::<Vec<u8>>());
    assert_eq!(pi, (10..20u8).collect::<Vec<u8>>());
    assert!(split_proof(&blob[..19], 64).is_none());
    assert!(split_proof(&[], 64).is_none());
    let mut longer = blob.clone();
    longer.push(0);
    assert!(split_proof(&longer, 64).is_none());
}

#[test]
fn leading_coordinate_zero_detection() {
    assert!(leading_coordinate_is_zero(&[0, 0, 0, 1], 3));
    assert!(!leading_coordinate_is_zero(&[0, 0, 1, 1], 3));
    assert!(leading_coordinate_is_zero(&[5], 0));
}

#[test]
fn element_validity_of_small_forms() {
    // discriminant -7: (a, b) valid iff a > 0 and 4a divides b^2 + 7
    assert!(element_is_valid(&[1, 1], 1, &[7]));
    assert!(element_is_valid(&[2, 1], 1, &[7]));
    assert!(element_is_valid(&[2, 0xff], 1, &[7]));
    assert!(!element_is_valid(&[3, 1], 1, &[7]));
    assert!(!element_is_valid(&[0, 1], 1, &[7]));
    assert!(!element_is_valid(&[0x80, 1], 1, &[7]));
    assert!(!element_is_valid(&[0xff, 1], 1, &[7]));
    // two-byte coordinates: a = 2, b = -3 (0xfffd), 9 + 7 = 16 = 2 * 4a
    assert!(element_is_valid(&[0, 2, 0xff, 0xfd], 2, &[7]));
    assert!(!element_is_valid(&[0, 2, 0xff, 0xfe], 2, &[7]));
    // a large magnitude: b = 0x100, b^2 + d = 65536 + 4 = 65540 = 4 * 16385
    assert!(element_is_valid(&[0x40, 0x01, 0x01, 0x00], 2, &[4]));
}

#[test]
fn decode_width_from_discriminant_size() {
    assert_eq!(decode_width(&[7]), Some(1));
    assert_eq!(decode_width(&[1, 0]), Some(1));
    assert_eq!(decode_width(&[0x80, 0]), Some(2));
    assert_eq!(decode_width(&[1, 0, 0]), Some(2));
    assert_eq!(decode_width(&[]), Some(1));
}
