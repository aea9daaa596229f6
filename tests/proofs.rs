use vdf_wasm::boundary::{generate_impl, generate_proof, verify_impl, verify_proof, verify_slow_impl, GenerateError, Scheme};

#[test]
fn wesolowski_scenario_bits_64() {
    let proof = generate_impl(1000, b"test".to_vec(), 64, false).unwrap();
    assert_eq!(proof.len(), 20);
    assert!(verify_impl(1000, b"test", &proof, 64, false));
    assert!(verify_slow_impl(1000, b"test", &proof, 64, false));
}

#[test]
fn wesolowski_completeness_small_cases() {
    for &(bits, t) in [(16u16, 1u64), (64, 0), (64, 2), (128, 77), (256, 500)].iter() {
        let challenge = vec![bits as u8, t as u8, 9];
        let proof = generate_proof(Scheme::Wesolowski, t, &challenge, bits).unwrap();
        assert_eq!(proof.len(), 4 * ((bits as usize + 16) >> 4));
        assert!(verify_proof(Scheme::Wesolowski, t, &challenge, &proof, bits));
        assert!(verify_slow_impl(t, &challenge, &proof, bits, false));
    }
}

#[test]
fn pietrzak_completeness() {
    let proof = generate_impl(1000, b"test".to_vec(), 64, true).unwrap();
    assert!(verify_impl(1000, b"test", &proof, 64, true));
    assert!(verify_slow_impl(1000, b"test", &proof, 64, true));
    assert!(!verify_impl(1002, b"test", &proof, 64, true));
}

#[test]
fn pietrzak_rejects_invalid_iterations() {
    assert_eq!(generate_impl(1001, b"test".to_vec(), 64, true), Err(GenerateError::InvalidIterations));
    assert_eq!(generate_impl(64, b"test".to_vec(), 64, true), Err(GenerateError::InvalidIterations));
    assert!(!verify_impl(1001, b"test", &[1u8; 40], 64, true));
}

#[test]
fn wesolowski_rejects_wrong_lengths() {
    for &bits in [16u16, 64, 256, 1024, 2048].iter() {
        let s = (bits as usize + 16) >> 4;
        for &len in [0usize, 1, 4 * s - 1, 4 * s + 1, 8 * s].iter() {
            let blob = vec![1u8; len];
            assert!(!verify_impl(10, b"abc", &blob, bits, false));
            assert!(!verify_slow_impl(10, b"abc", &blob, bits, false));
        }
    }
}

#[test]
fn wesolowski_rejects_zero_coordinates() {
    let blob = vec![0u8; 20];
    assert!(!verify_impl(10, b"abc", &blob, 64, false));
    assert!(!verify_slow_impl(10, b"abc", &blob, 64, false));
}

#[test]
fn zero_bits_is_rejected() {
    assert!(!verify_impl(10, b"abc", &[1u8; 4], 0, false));
    assert!(!verify_impl(10, b"abc", &[1u8; 4], 0, true));
    assert!(!verify_slow_impl(10, b"abc", &[1u8; 4], 0, false));
}

#[test]
fn wesolowski_rejects_swapped_elements() {
    let proof = generate_impl(1000, b"test".to_vec(), 64, false).unwrap();
    let mut swapped = proof[10..].to_vec();
    swapped.extend_from_slice(&proof[..10]);
    assert!(!verify_impl(1000, b"test", &swapped, 64, false));
    assert!(!verify_impl(1001, b"test", &proof, 64, false));
    assert!(!verify_impl(1000, b"tesu", &proof, 64, false));
}

#[test]
fn wesolowski_rejects_flipped_bytes() {
    let proof = generate_impl(1000, b"test".to_vec(), 64, false).unwrap();
    for i in 0..proof.len() {
        let mut forged = proof.clone();
        forged[i] ^= 0x01;
        let fast = verify_impl(1000, b"test", &forged, 64, false);
        assert!(!fast);
        assert_eq!(fast, verify_slow_impl(1000, b"test", &forged, 64, false));
    }
}

#[test]
fn pietrzak_rejects_flipped_bytes_and_bad_framing() {
    let proof = generate_impl(100, b"abc".to_vec(), 64, true).unwrap();
    assert!(verify_impl(100, b"abc", &proof, 64, true));
    assert_eq!(proof.len() % 10, 0);
    for i in 0..proof.len() {
        let mut forged = proof.clone();
        forged[i] ^= 0x01;
        assert!(!verify_impl(100, b"abc", &forged, 64, true));
        assert!(!verify_slow_impl(100, b"abc", &forged, 64, true));
    }
    assert!(!verify_impl(100, b"abc", &proof[..proof.len() - 1], 64, true));
    assert!(!verify_impl(100, b"abc", &proof[..5], 64, true));
    assert!(!verify_impl(100, b"abc", &[], 64, true));
}

#[test]
fn generate_rejects_unusable_bit_lengths() {
    assert_eq!(generate_impl(10, b"test".to_vec(), 0, false), Err(GenerateError::InvalidBitLength));
    assert_eq!(generate_impl(10, b"test".to_vec(), 8, false), Err(GenerateError::InvalidBitLength));
    assert_eq!(generate_impl(100, b"test".to_vec(), 8, true), Err(GenerateError::InvalidBitLength));
    assert_eq!(generate_impl(100, b"test".to_vec(), 0, true), Err(GenerateError::InvalidBitLength));
}

#[test]
fn generate_rejects_wesolowski_counts_beyond_solver_range() {
    assert_eq!(generate_impl(1u64 << 53, b"test".to_vec(), 64, false), Err(GenerateError::InvalidIterations));
    assert_eq!(generate_impl(u64::MAX, b"test".to_vec(), 64, false), Err(GenerateError::InvalidIterations));
}
