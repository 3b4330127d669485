use k256::ecdsa::SigningKey;
use payment::bytes::{bytes_equal, copy_bytes, copy_range};
use payment::codec::{
    encode, encode_recovered, encode_v, is_expected_key, resolve_recovery_id, VConvention,
};
use payment::error::SignerError;

struct Signed {
    digest: Vec<u8>,
    raw: Vec<u8>,
    recovery_id: u8,
    compressed_key: Vec<u8>,
    full_key: Vec<u8>,
}

fn signed_with(secret: u8, fill: u8) -> Signed {
    let key = SigningKey::from_slice(&[secret; 32]).unwrap();
    let digest = vec![fill; 32];
    let (signature, id) = key.sign_prehash_recoverable(&digest).unwrap();
    Signed {
        digest,
        raw: signature.to_bytes().to_vec(),
        recovery_id: id.to_byte(),
        compressed_key: key.verifying_key().to_encoded_point(true).as_bytes().to_vec(),
        full_key: key.verifying_key().to_encoded_point(false).as_bytes().to_vec(),
    }
}

#[test]
fn bytes_helpers_compare_and_copy() {
    let a = vec![1u8, 2, 3, 4];
    assert!(bytes_equal(&a, &vec![1u8, 2, 3, 4]));
    assert!(!bytes_equal(&a, &vec![1u8, 2, 3]));
    assert!(!bytes_equal(&a, &vec![1u8, 2, 3, 5]));
    assert!(bytes_equal(&Vec::new(), &Vec::new()));
    assert_eq!(copy_bytes(&a), a);
    assert_eq!(copy_range(&a, 1, 3), vec![2u8, 3]);
    assert_eq!(copy_range(&a, 2, 2), Vec::<u8>::new());
}

#[test]
fn v_follows_the_convention() {
    assert_eq!(encode_v(0, None, VConvention::Raw), 0);
    assert_eq!(encode_v(1, None, VConvention::Raw), 1);
    assert_eq!(encode_v(0, None, VConvention::Legacy), 27);
    assert_eq!(encode_v(1, None, VConvention::Legacy), 28);
    assert_eq!(encode_v(0, Some(1), VConvention::Raw), 37);
    assert_eq!(encode_v(1, Some(1), VConvention::Legacy), 38);
    assert_eq!(encode_v(1, Some(11155111), VConvention::Legacy), 22310258);
    assert_eq!(encode_v(0, Some(0), VConvention::Legacy), 35);
}

#[test]
fn v_does_not_overflow_for_the_largest_chain_id() {
    let expected: u128 = 35 + 2 * (u64::MAX as u128) + 1;
    assert_eq!(encode_v(1, Some(u64::MAX), VConvention::Raw), expected);
}

#[test]
fn expected_key_is_compared_byte_for_byte() {
    let key = vec![2u8, 9, 9];
    assert!(is_expected_key(&Some(vec![2u8, 9, 9]), &key));
    assert!(!is_expected_key(&Some(vec![3u8, 9, 9]), &key));
    assert!(!is_expected_key(&Some(vec![2u8, 9]), &key));
    assert!(!is_expected_key(&None, &key));
}

#[test]
fn recovery_id_is_the_first_matching_candidate() {
    let key = vec![7u8; 33];
    let other = vec![8u8; 33];
    assert_eq!(resolve_recovery_id(&Some(key.clone()), &Some(other.clone()), &key), Ok(0));
    assert_eq!(resolve_recovery_id(&Some(other.clone()), &Some(key.clone()), &key), Ok(1));
    assert_eq!(resolve_recovery_id(&None, &Some(key.clone()), &key), Ok(1));
    assert_eq!(resolve_recovery_id(&Some(key.clone()), &Some(key.clone()), &key), Ok(0));
    assert_eq!(
        resolve_recovery_id(&Some(other.clone()), &None, &key),
        Err(SignerError::Integrity)
    );
    assert_eq!(resolve_recovery_id(&None, &None, &key), Err(SignerError::Integrity));
}

#[test]
fn encode_recovered_splits_the_raw_signature() {
    let mut raw = vec![0xAAu8; 32];
    raw.extend(vec![0xBBu8; 32]);
    let key = vec![2u8; 33];
    let sig = encode_recovered(&raw, &None, &Some(key.clone()), &key, Some(5), VConvention::Raw)
        .unwrap();
    assert_eq!(sig.r(), &vec![0xAAu8; 32]);
    assert_eq!(sig.s(), &vec![0xBBu8; 32]);
    assert_eq!(sig.v(), 46);
    assert_eq!(sig.recovery_id(Some(5), VConvention::Raw), Some(1));
    assert_eq!(sig.recovery_id(Some(6), VConvention::Raw), None);
}

#[test]
fn encode_recovered_rejects_a_raw_signature_of_the_wrong_length() {
    let key = vec![2u8; 33];
    let out = encode_recovered(
        &vec![1u8; 63],
        &Some(key.clone()),
        &None,
        &key,
        None,
        VConvention::Raw,
    );
    assert!(matches!(out, Err(SignerError::InvalidInput)));
    let out = encode_recovered(&vec![1u8; 64], &None, &None, &key, None, VConvention::Raw);
    assert!(matches!(out, Err(SignerError::Integrity)));
}

#[test]
fn chain_id_one_gives_recovery_id_plus_37() {
    for fill in 0u8..8 {
        let signed = signed_with(11, fill);
        let sig = encode(
            &signed.raw,
            &signed.digest,
            &signed.compressed_key,
            Some(1),
            VConvention::Legacy,
        )
        .unwrap();
        assert_eq!(sig.v(), signed.recovery_id as u128 + 37);
        assert_eq!(sig.recovery_id(Some(1), VConvention::Legacy), Some(signed.recovery_id));
    }
}

#[test]
fn encode_keeps_r_and_s() {
    let signed = signed_with(3, 0x42);
    let sig =
        encode(&signed.raw, &signed.digest, &signed.compressed_key, None, VConvention::Raw).unwrap();
    assert_eq!(sig.r().as_slice(), &signed.raw[..32]);
    assert_eq!(sig.s().as_slice(), &signed.raw[32..]);
    assert_eq!(sig.v(), signed.recovery_id as u128);
}

#[test]
fn encode_without_chain_id_uses_the_configured_convention() {
    let signed = signed_with(5, 0x10);
    let raw =
        encode(&signed.raw, &signed.digest, &signed.compressed_key, None, VConvention::Raw).unwrap();
    let legacy = encode(
        &signed.raw,
        &signed.digest,
        &signed.compressed_key,
        None,
        VConvention::Legacy,
    )
    .unwrap();
    assert_eq!(raw.v(), signed.recovery_id as u128);
    assert_eq!(legacy.v(), signed.recovery_id as u128 + 27);
}

#[test]
fn encode_accepts_an_uncompressed_expected_key() {
    let signed = signed_with(9, 0x77);
    assert_eq!(signed.full_key.len(), 65);
    let sig = encode(&signed.raw, &signed.digest, &signed.full_key, Some(1), VConvention::Raw)
        .unwrap();
    assert_eq!(sig.v(), signed.recovery_id as u128 + 37);
}

#[test]
fn encoded_signature_recovers_the_expected_key() {
    let signed = signed_with(21, 0x99);
    let sig = encode(
        &signed.raw,
        &signed.digest,
        &signed.compressed_key,
        Some(11155111),
        VConvention::Legacy,
    )
    .unwrap();
    let id = sig.recovery_id(Some(11155111), VConvention::Legacy).unwrap();
    let mut joined = sig.r().clone();
    joined.extend(sig.s().iter());
    let parsed = k256::ecdsa::Signature::from_slice(&joined).unwrap();
    let recovered = k256::ecdsa::VerifyingKey::recover_from_prehash(
        &signed.digest,
        &parsed,
        k256::ecdsa::RecoveryId::from_byte(id).unwrap(),
    )
    .unwrap();
    assert_eq!(recovered.to_encoded_point(true).as_bytes().to_vec(), signed.compressed_key);
}

#[test]
fn encode_is_deterministic() {
    let signed = signed_with(33, 0x01);
    let a = encode(&signed.raw, &signed.digest, &signed.compressed_key, Some(1), VConvention::Raw)
        .unwrap();
    let b = encode(&signed.raw, &signed.digest, &signed.compressed_key, Some(1), VConvention::Raw)
        .unwrap();
    assert_eq!(a.r(), b.r());
    assert_eq!(a.s(), b.s());
    assert_eq!(a.v(), b.v());
}

#[test]
fn encode_fails_with_integrity_for_another_key() {
    let signed = signed_with(40, 0x31);
    let stranger = signed_with(41, 0x31);
    let out = encode(
        &signed.raw,
        &signed.digest,
        &stranger.compressed_key,
        Some(1),
        VConvention::Raw,
    );
    assert!(matches!(out, Err(SignerError::Integrity)));
}

#[test]
fn encode_fails_with_integrity_for_another_digest() {
    let signed = signed_with(40, 0x31);
    let out =
        encode(&signed.raw, &vec![0x32u8; 32], &signed.compressed_key, None, VConvention::Raw);
    assert!(matches!(out, Err(SignerError::Integrity)));
}

#[test]
fn encode_fails_with_integrity_for_a_signature_that_does_not_parse() {
    let signed = signed_with(40, 0x31);
    let out =
        encode(&vec![0u8; 64], &signed.digest, &signed.compressed_key, None, VConvention::Raw);
    assert!(matches!(out, Err(SignerError::Integrity)));
}

#[test]
fn encode_rejects_wrong_lengths() {
    let signed = signed_with(40, 0x31);
    let short_digest =
        encode(&signed.raw, &vec![1u8; 31], &signed.compressed_key, None, VConvention::Raw);
    assert!(matches!(short_digest, Err(SignerError::InvalidInput)));
    let long_digest =
        encode(&signed.raw, &vec![1u8; 33], &signed.compressed_key, None, VConvention::Raw);
    assert!(matches!(long_digest, Err(SignerError::InvalidInput)));
    let short_raw =
        encode(&vec![1u8; 63], &signed.digest, &signed.compressed_key, None, VConvention::Raw);
    assert!(matches!(short_raw, Err(SignerError::InvalidInput)));
    let empty = encode(&Vec::new(), &Vec::new(), &Vec::new(), None, VConvention::Raw);
    assert!(matches!(empty, Err(SignerError::InvalidInput)));
}

const ORDER: [u8; 32] = [
    0xFF, 0xFF, 0xFF, 0xFF, 0xFF, 0xFF, 0xFF, 0xFF, 0xFF, 0xFF, 0xFF, 0xFF, 0xFF, 0xFF, 0xFF, 0xFE,
    0xBA, 0xAE, 0xDC, 0xE6, 0xAF, 0x48, 0xA0, 0x3B, 0xBF, 0xD2, 0x5E, 0x8C, 0xD0, 0x36, 0x41, 0x41,
];

fn order_minus(s: &[u8]) -> Vec<u8> {
    let mut out = vec![0u8; 32];
    let mut borrow = 0i16;
    for i in (0..32).rev() {
        let mut digit = ORDER[i] as i16 - s[i] as i16 - borrow;
        if digit < 0 {
            digit += 256;
            borrow = 1;
        } else {
            borrow = 0;
        }
        out[i] = digit as u8;
    }
    out
}

#[test]
fn encode_refuses_a_signature_with_s_in_the_upper_half() {
    let signed = signed_with(12, 0x21);
    let mut raw = signed.raw[..32].to_vec();
    raw.extend(order_minus(&signed.raw[32..]));
    let out = encode(&raw, &signed.digest, &signed.compressed_key, None, VConvention::Raw);
    assert!(matches!(out, Err(SignerError::Integrity)));
}
