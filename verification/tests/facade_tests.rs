use k256::ecdsa::SigningKey;
use payment::backend::{
    BackendEvent, BackendFailure, BackendRequest, RetryPolicy, SigningBackendClient,
};
use payment::cache::FetchDecision;
use payment::codec::VConvention;
use payment::error::SignerError;
use payment::facade::{get_public_key, render_reply, SignerConfig, SignerFacade, SEPOLIA_CHAIN_ID};
use payment::identity::KeyIdentity;
use std::cell::{Cell, RefCell};

fn signer_with(max_retries: u32) -> SignerFacade {
    SignerFacade::new(SignerConfig {
        identity: KeyIdentity::test_profile(),
        chain_id: Some(1),
        convention: VConvention::Raw,
        retry: RetryPolicy::new(max_retries, 100, 5000),
    })
}

fn secret() -> SigningKey {
    SigningKey::from_slice(&[0x17u8; 32]).unwrap()
}

fn public_bytes(key: &SigningKey) -> Vec<u8> {
    key.verifying_key().to_encoded_point(true).as_bytes().to_vec()
}

fn answer(key: &SigningKey, request: &BackendRequest) -> BackendEvent {
    match request {
        BackendRequest::PublicKey => BackendEvent::Reply(public_bytes(key)),
        BackendRequest::Sign(digest) => {
            let (signature, _) = key.sign_prehash_recoverable(digest).unwrap();
            BackendEvent::Reply(signature.to_bytes().to_vec())
        }
    }
}

#[test]
fn test_profile_configuration() {
    let config = SignerConfig::test_profile();
    assert_eq!(config.identity.name(), "dfx_test_key");
    assert!(config.identity.derivation_path().is_empty());
    assert_eq!(config.chain_id, Some(11155111));
    assert_eq!(SEPOLIA_CHAIN_ID, 11155111);
    assert_eq!(config.convention, VConvention::Legacy);
    assert_eq!(config.retry, RetryPolicy::new(3, 100, 5000));
    let signer = SignerFacade::new(config);
    assert_eq!(signer.config().identity.name(), "dfx_test_key");
}

#[test]
fn endpoint_returns_the_key_and_fetches_once() {
    let mut signer = SignerFacade::new(SignerConfig::test_profile());
    let pk = vec![2u8; 33];
    let fetches = Cell::new(0u32);
    let asked = RefCell::new(Vec::new());
    let backend = |id: &KeyIdentity, request: &BackendRequest, _wait: u64| {
        fetches.set(fetches.get() + 1);
        asked.borrow_mut().push((id.name().clone(), matches!(request, BackendRequest::PublicKey)));
        BackendEvent::Reply(pk.clone())
    };
    let first = get_public_key(&mut signer, &backend);
    assert_eq!(first.unwrap().public_key, pk);
    let second = get_public_key(&mut signer, &backend);
    assert_eq!(second.unwrap().public_key, pk);
    assert_eq!(fetches.get(), 1);
    assert_eq!(*asked.borrow(), vec![("dfx_test_key".to_string(), true)]);
}

#[test]
fn endpoint_renders_a_failure_as_text() {
    let mut signer = SignerFacade::new(SignerConfig::test_profile());
    let refuse = |_id: &KeyIdentity, _r: &BackendRequest, _w: u64| {
        BackendEvent::Failed(BackendFailure::Permanent)
    };
    let reply = get_public_key(&mut signer, &refuse);
    assert_eq!(reply.unwrap_err(), "permanent backend error");
    let give = |_id: &KeyIdentity, _r: &BackendRequest, _w: u64| BackendEvent::Reply(vec![1u8]);
    let reply = get_public_key(&mut signer, &give);
    assert_eq!(reply.unwrap().public_key, vec![1u8]);
}

#[test]
fn render_reply_maps_both_cases() {
    assert_eq!(render_reply(Ok(vec![1, 2])).unwrap().public_key, vec![1u8, 2]);
    assert_eq!(
        render_reply(Err(SignerError::Integrity)).unwrap_err(),
        SignerError::Integrity.message()
    );
    assert_eq!(render_reply(Err(SignerError::InvalidInput)).unwrap_err(), "invalid input");
}

#[test]
fn public_key_twice_gives_the_same_bytes() {
    let mut signer = signer_with(3);
    let id = KeyIdentity::new("k".to_string(), vec![vec![1, 2, 3]]);
    let counter = Cell::new(4u8);
    let backend = |_id: &KeyIdentity, _r: &BackendRequest, _w: u64| {
        counter.set(counter.get() + 1);
        BackendEvent::Reply(vec![counter.get(); 33])
    };
    let a = signer.public_key(&id, &backend).unwrap();
    let b = signer.public_key(&id, &backend).unwrap();
    assert_eq!(a, vec![5u8; 33]);
    assert_eq!(a, b);
    signer.invalidate(&id);
    let c = signer.public_key(&id, &backend).unwrap();
    assert_eq!(c, vec![6u8; 33]);
}

#[test]
fn public_key_is_retried_after_transient_failures() {
    let mut signer = signer_with(3);
    let id = KeyIdentity::test_profile();
    let calls = Cell::new(0u32);
    let backend = |_id: &KeyIdentity, _r: &BackendRequest, _w: u64| {
        calls.set(calls.get() + 1);
        if calls.get() < 3 {
            BackendEvent::Failed(BackendFailure::Transient)
        } else {
            BackendEvent::Reply(vec![3u8; 33])
        }
    };
    assert_eq!(signer.public_key(&id, &backend), Ok(vec![3u8; 33]));
    assert_eq!(calls.get(), 3);
    assert_eq!(signer.public_key(&id, &backend), Ok(vec![3u8; 33]));
    assert_eq!(calls.get(), 3);
}

#[test]
fn failed_lookup_is_not_cached() {
    let mut signer = signer_with(0);
    let id = KeyIdentity::test_profile();
    let calls = Cell::new(0u32);
    let backend = |_id: &KeyIdentity, _r: &BackendRequest, _w: u64| {
        calls.set(calls.get() + 1);
        if calls.get() == 1 {
            BackendEvent::Failed(BackendFailure::Transient)
        } else {
            BackendEvent::Reply(vec![3u8; 33])
        }
    };
    assert_eq!(signer.public_key(&id, &backend), Err(SignerError::TransientBackend));
    assert_eq!(signer.public_key(&id, &backend), Ok(vec![3u8; 33]));
    assert_eq!(calls.get(), 2);
}

#[test]
fn public_key_single_flight_steps() {
    let mut signer = signer_with(3);
    let id = KeyIdentity::test_profile();
    assert!(matches!(signer.public_key_begin(&id), FetchDecision::Start));
    assert!(matches!(signer.public_key_begin(&id), FetchDecision::Wait));
    assert_eq!(signer.public_key_complete(&id, Ok(vec![8u8; 33])), Ok(vec![8u8; 33]));
    assert!(matches!(signer.public_key_begin(&id), FetchDecision::Cached(k) if k == vec![8u8; 33]));
}

#[test]
fn client_hands_identity_and_request_to_the_backend() {
    let client = SigningBackendClient::new(RetryPolicy::new(1, 5, 50));
    let id = KeyIdentity::new("prod".to_string(), vec![vec![9]]);
    let seen = RefCell::new(Vec::new());
    let backend = |id: &KeyIdentity, request: &BackendRequest, _w: u64| {
        let digest = match request {
            BackendRequest::PublicKey => None,
            BackendRequest::Sign(d) => Some(d.clone()),
        };
        seen.borrow_mut().push((id.clone(), digest));
        BackendEvent::Reply(vec![1u8])
    };
    assert_eq!(client.get_public_key(&id, &backend), Ok(vec![1u8]));
    assert_eq!(client.sign(&id, &vec![6u8; 32], &backend), Ok(vec![1u8]));
    assert_eq!(
        client.perform(&id, &BackendRequest::Sign(vec![6u8; 3]), &backend),
        Err(SignerError::InvalidInput)
    );
    let seen = seen.borrow();
    assert_eq!(seen.len(), 2);
    assert!(seen[0].0 == id && seen[0].1.is_none());
    assert!(seen[1].0 == id && seen[1].1 == Some(vec![6u8; 32]));
}

#[test]
fn sign_digest_retries_exactly_twice() {
    let signer = signer_with(3);
    let id = KeyIdentity::test_profile();
    let calls = Cell::new(0u32);
    let delays = RefCell::new(Vec::new());
    let backend = |_id: &KeyIdentity, _r: &BackendRequest, delay: u64| {
        delays.borrow_mut().push(delay);
        calls.set(calls.get() + 1);
        if calls.get() <= 2 {
            BackendEvent::Failed(BackendFailure::Transient)
        } else {
            BackendEvent::Reply(vec![0xCD; 64])
        }
    };
    let out = signer.sign_digest(&id, &vec![1u8; 32], &backend);
    assert_eq!(out, Ok(vec![0xCD; 64]));
    assert_eq!(calls.get(), 3);
    assert_eq!(*delays.borrow(), vec![0u64, 100, 200]);
}

#[test]
fn sign_digest_gives_up_when_the_budget_is_spent() {
    let signer = signer_with(2);
    let id = KeyIdentity::test_profile();
    let calls = Cell::new(0u32);
    let backend = |_id: &KeyIdentity, _r: &BackendRequest, _w: u64| {
        calls.set(calls.get() + 1);
        BackendEvent::Failed(BackendFailure::Transient)
    };
    let out = signer.sign_digest(&id, &vec![1u8; 32], &backend);
    assert_eq!(out, Err(SignerError::TransientBackend));
    assert_eq!(calls.get(), 3);
}

#[test]
fn sign_digest_does_not_retry_a_permanent_failure() {
    let signer = signer_with(5);
    let id = KeyIdentity::test_profile();
    let calls = Cell::new(0u32);
    let backend = |_id: &KeyIdentity, _r: &BackendRequest, _w: u64| {
        calls.set(calls.get() + 1);
        BackendEvent::Failed(BackendFailure::Permanent)
    };
    let out = signer.sign_digest(&id, &vec![1u8; 32], &backend);
    assert_eq!(out, Err(SignerError::PermanentBackend));
    assert_eq!(calls.get(), 1);
}

#[test]
fn sign_digest_rejects_a_wrong_length_without_calling_the_backend() {
    let signer = signer_with(3);
    let id = KeyIdentity::test_profile();
    let calls = Cell::new(0u32);
    let backend = |_id: &KeyIdentity, _r: &BackendRequest, _w: u64| {
        calls.set(calls.get() + 1);
        BackendEvent::Reply(vec![0u8; 64])
    };
    for len in [0usize, 31, 33, 64] {
        let out = signer.sign_digest(&id, &vec![1u8; len], &backend);
        assert_eq!(out, Err(SignerError::InvalidInput));
    }
    assert_eq!(calls.get(), 0);
}

#[test]
fn sign_and_encode_recovers_the_cached_key() {
    let secret = secret();
    let pk = public_bytes(&secret);
    let mut signer = signer_with(3);
    let id = KeyIdentity::test_profile();
    let digest = vec![0x5Au8; 32];
    let (expected_sig, expected_id) = secret.sign_prehash_recoverable(&digest).unwrap();
    let attempts = Cell::new(0u32);
    let backend = |_id: &KeyIdentity, request: &BackendRequest, _w: u64| {
        attempts.set(attempts.get() + 1);
        if attempts.get() == 2 {
            return BackendEvent::Failed(BackendFailure::Transient);
        }
        answer(&secret, request)
    };
    let sig = signer.sign_and_encode(&id, &digest, Some(1), &backend).unwrap();
    assert_eq!(attempts.get(), 3);
    assert_eq!(sig.v(), expected_id.to_byte() as u128 + 37);
    assert_eq!(sig.recovery_id(Some(1), VConvention::Raw), Some(expected_id.to_byte()));
    assert_eq!(sig.r().as_slice(), &expected_sig.to_bytes()[..32]);
    assert_eq!(sig.s().as_slice(), &expected_sig.to_bytes()[32..]);
    assert_eq!(signer.public_key(&id, &backend), Ok(pk));
    assert_eq!(attempts.get(), 3);
}

#[test]
fn sign_and_encode_without_chain_id_uses_the_configured_convention() {
    let secret = secret();
    let mut signer = SignerFacade::new(SignerConfig::test_profile());
    let id = KeyIdentity::test_profile();
    let digest = vec![0x01u8; 32];
    let (_, expected_id) = secret.sign_prehash_recoverable(&digest).unwrap();
    let backend =
        |_id: &KeyIdentity, request: &BackendRequest, _w: u64| answer(&secret, request);
    let sig = signer.sign_and_encode(&id, &digest, None, &backend).unwrap();
    assert_eq!(sig.v(), expected_id.to_byte() as u128 + 27);
}

#[test]
fn sign_and_encode_reports_a_key_mismatch() {
    let secret = secret();
    let other = SigningKey::from_slice(&[0x18u8; 32]).unwrap();
    let mut signer = signer_with(3);
    let id = KeyIdentity::test_profile();
    let backend = |_id: &KeyIdentity, request: &BackendRequest, _w: u64| match request {
        BackendRequest::PublicKey => answer(&other, request),
        BackendRequest::Sign(_) => answer(&secret, request),
    };
    let out = signer.sign_and_encode(&id, &vec![0x5Au8; 32], None, &backend);
    assert!(matches!(out, Err(SignerError::Integrity)));
}

#[test]
fn sign_and_encode_passes_failures_on() {
    let mut signer = signer_with(1);
    let id = KeyIdentity::test_profile();
    let refuse = |_id: &KeyIdentity, _r: &BackendRequest, _w: u64| {
        BackendEvent::Failed(BackendFailure::Permanent)
    };
    let out = signer.sign_and_encode(&id, &vec![0u8; 32], None, &refuse);
    assert!(matches!(out, Err(SignerError::PermanentBackend)));
    let secret = secret();
    let signing_fails = |_id: &KeyIdentity, request: &BackendRequest, _w: u64| match request {
        BackendRequest::PublicKey => answer(&secret, request),
        BackendRequest::Sign(_) => BackendEvent::Failed(BackendFailure::Transient),
    };
    let out = signer.sign_and_encode(&id, &vec![0u8; 5], None, &signing_fails);
    assert!(matches!(out, Err(SignerError::InvalidInput)));
    let out = signer.sign_and_encode(&id, &vec![0u8; 32], None, &signing_fails);
    assert!(matches!(out, Err(SignerError::TransientBackend)));
}
