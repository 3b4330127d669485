//! The signer as its callers see it: public keys, raw signatures, and
//! encoded EVM signatures, over a backend that the caller supplies.
use vstd::prelude::*;
use crate::backend::{
    call_outcome,
    may_fetch,
    may_sign,
    signed_by,
    BackendEvent,
    BackendRequest,
    RetryPolicy,
    SigningBackendClient,
};
use crate::cache::{
    begin_spec,
    cached_key,
    complete_spec,
    fetch_view,
    store_spec,
    CacheView,
    EntryView,
    FetchDecision,
    KeyCache,
};
use crate::codec::{
    encode,
    encoded,
    lemma_encoded_signature_recovers,
    outcome_view,
    recovered_key,
    recovery_id_of,
    wants_compressed,
    EvmSignature,
    EvmSignatureView,
    VConvention,
    DIGEST_LEN,
};
use crate::error::{message_of, SignerError};
use crate::identity::{KeyIdentity, KeyIdentityView};

verus! {

/// The chain id of the Sepolia test network.
pub const SEPOLIA_CHAIN_ID: u64 = 11155111;

/// What a signer is set up with. It is fixed when the signer is made.
#[derive(Debug)]
pub struct SignerConfig {
    /// The key that the endpoint answers for.
    pub identity: KeyIdentity,
    /// The chain whose replay protection `v` carries, if any.
    pub chain_id: Option<u64>,
    /// How `v` is written when there is no chain id.
    pub convention: VConvention,
    /// How backend calls are retried.
    pub retry: RetryPolicy,
}

impl SignerConfig {
    /// The test profile: the key `dfx_test_key` with an empty derivation
    /// path, on Sepolia, with three retries from 100 ms up to 5 s.
    pub fn test_profile() -> (config: SignerConfig)
        ensures
            config.identity@.name == "dfx_test_key"@,
            config.identity@.derivation_path == Seq::<Seq<u8>>::empty(),
            config.chain_id == Some(SEPOLIA_CHAIN_ID),
            config.convention == VConvention::Legacy,
            config.retry == (RetryPolicy { max_retries: 3, base_delay_ms: 100, max_delay_ms: 5000 }),
    {
        SignerConfig {
            identity: KeyIdentity::test_profile(),
            chain_id: Some(SEPOLIA_CHAIN_ID),
            convention: VConvention::Legacy,
            retry: RetryPolicy::new(3, 100, 5000),
        }
    }
}

/// The answer of the public-key endpoint.
#[derive(Debug)]
pub struct PublicKeyReply {
    pub public_key: Vec<u8>,
}

/// The view of an endpoint answer: the key, or the text of the failure.
pub open spec fn reply_view(reply: Result<PublicKeyReply, String>) -> Result<Seq<u8>, Seq<char>> {
    match reply {
        Ok(r) => Ok(r.public_key@),
        Err(text) => Err(text@),
    }
}

/// The endpoint answer for a key lookup: the key as it is, a failure as its
/// message.
pub open spec fn rendered(result: Result<Seq<u8>, SignerError>) -> Result<Seq<u8>, Seq<char>> {
    match result {
        Ok(key) => Ok(key),
        Err(e) => Err(message_of(e)),
    }
}

/// Turns the outcome of a key lookup into the endpoint's answer.
pub fn render_reply(result: Result<Vec<u8>, SignerError>) -> (reply: Result<PublicKeyReply, String>)
    ensures
        reply_view(reply) == rendered(fetch_view(result)),
{
    match result {
        Ok(public_key) => Ok(PublicKeyReply { public_key }),
        Err(e) => Err(e.message()),
    }
}

/// How a key lookup may end and what it leaves in the cache. A cached key
/// is returned and nothing changes. Otherwise the backend is asked; its key
/// is cached, its failure is not.
pub open spec fn looked_up<B: Fn(&KeyIdentity, &BackendRequest, u64) -> BackendEvent>(
    backend: B,
    identity: &KeyIdentity,
    policy: RetryPolicy,
    before: CacheView,
    after: CacheView,
    out: Result<Vec<u8>, SignerError>,
) -> bool {
    match cached_key(before, identity@) {
        Some(key) => fetch_view(out) == Ok::<Seq<u8>, SignerError>(key) && after == before,
        None => call_outcome(backend, identity, &BackendRequest::PublicKey, policy, out) && after
            == store_spec(before, identity@, fetch_view(out)),
    }
}

/// Two lookups of one identity in a row, the first of which succeeds, give
/// the same bytes; the second finds them in the cache and leaves it as it
/// is.
pub proof fn lemma_lookup_twice<B: Fn(&KeyIdentity, &BackendRequest, u64) -> BackendEvent>(
    backend: B,
    identity: &KeyIdentity,
    policy: RetryPolicy,
    before: CacheView,
    between: CacheView,
    after: CacheView,
    first: Result<Vec<u8>, SignerError>,
    second: Result<Vec<u8>, SignerError>,
)
    requires
        looked_up(backend, identity, policy, before, between, first),
        looked_up(backend, identity, policy, between, after, second),
        first is Ok,
    ensures
        cached_key(between, identity@) == Some(first->Ok_0@),
        fetch_view(second) == fetch_view(first),
        after == between,
{
}

/// A signer: its configuration and its key cache.
#[derive(Debug)]
pub struct SignerFacade {
    config: SignerConfig,
    cache: KeyCache,
}

impl SignerFacade {
    /// The cache is consistent.
    pub closed spec fn wf(&self) -> bool {
        self.cache.wf()
    }

    /// The configuration that the signer was made with.
    pub closed spec fn config_of(&self) -> SignerConfig {
        self.config
    }

    /// What the key cache holds.
    pub closed spec fn keys(&self) -> CacheView {
        self.cache@
    }

    /// A signer with an empty cache.
    pub fn new(config: SignerConfig) -> (signer: SignerFacade)
        ensures
            signer.wf(),
            signer.config_of() == config,
            signer.keys() == Map::<KeyIdentityView, EntryView>::empty(),
    {
        SignerFacade { config, cache: KeyCache::new() }
    }

    pub fn config(&self) -> (config: &SignerConfig)
        ensures
            *config == self.config_of(),
    {
        &self.config
    }

    /// The public key of `identity`: from the cache, or else from the
    /// backend, whose key is then cached. Where the key is cached nothing is
    /// asked of `backend`: it is not called.
    pub fn public_key<B: Fn(&KeyIdentity, &BackendRequest, u64) -> BackendEvent>(
        &mut self,
        identity: &KeyIdentity,
        backend: &B,
    ) -> (out: Result<Vec<u8>, SignerError>)
        requires
            old(self).wf(),
            cached_key(old(self).keys(), identity@) is None ==> may_fetch(*backend, identity),
        ensures
            final(self).wf(),
            final(self).config_of() == old(self).config_of(),
            looked_up(
                *backend,
                identity,
                old(self).config_of().retry,
                old(self).keys(),
                final(self).keys(),
                out,
            ),
    {
        match self.cache.cached(identity) {
            Some(key) => Ok(key),
            None => {
                let client = SigningBackendClient::new(self.config.retry);
                let fetched = client.get_public_key(identity, backend);
                match &fetched {
                    Ok(key) => {
                        self.cache.store(identity, key);
                    },
                    Err(_) => {},
                }
                fetched
            },
        }
    }

    /// Asks for the key of `identity` where the fetch is made elsewhere:
    /// see `KeyCache::begin`.
    pub fn public_key_begin(&mut self, identity: &KeyIdentity) -> (decision: FetchDecision)
        requires
            old(self).wf(),
        ensures
            final(self).wf(),
            final(self).config_of() == old(self).config_of(),
            (final(self).keys(), decision@) == begin_spec(old(self).keys(), identity@),
    {
        self.cache.begin(identity)
    }

    /// Ends a fetch that `public_key_begin` started: see
    /// `KeyCache::complete`.
    pub fn public_key_complete(
        &mut self,
        identity: &KeyIdentity,
        result: Result<Vec<u8>, SignerError>,
    ) -> (out: Result<Vec<u8>, SignerError>)
        requires
            old(self).wf(),
        ensures
            final(self).wf(),
            final(self).config_of() == old(self).config_of(),
            final(self).keys() == complete_spec(old(self).keys(), identity@, fetch_view(result)),
            out == result,
    {
        self.cache.complete(identity, result)
    }

    /// Forgets the key of `identity`, for when the backend has rotated it.
    pub fn invalidate(&mut self, identity: &KeyIdentity)
        requires
            old(self).wf(),
        ensures
            final(self).wf(),
            final(self).config_of() == old(self).config_of(),
            final(self).keys() == old(self).keys().remove(identity@),
    {
        self.cache.invalidate(identity)
    }

    /// A raw signature over `digest` by the key of `identity`. Signatures
    /// are never cached. A digest that is not 32 bytes long fails with
    /// `InvalidInput` and the backend is not called.
    pub fn sign_digest<B: Fn(&KeyIdentity, &BackendRequest, u64) -> BackendEvent>(
        &self,
        identity: &KeyIdentity,
        digest: &Vec<u8>,
        backend: &B,
    ) -> (out: Result<Vec<u8>, SignerError>)
        requires
            digest@.len() == DIGEST_LEN ==> may_sign(*backend, identity, digest@),
        ensures
            digest@.len() != DIGEST_LEN ==> out == Err::<Vec<u8>, SignerError>(
                SignerError::InvalidInput,
            ),
            digest@.len() == DIGEST_LEN ==> signed_by(
                *backend,
                identity,
                self.config_of().retry,
                digest@,
                out,
            ),
    {
        SigningBackendClient::new(self.config.retry).sign(identity, digest, backend)
    }

    /// An EVM signature over `digest` by the key of `identity`: the public
    /// key is looked up, the digest signed, the raw signature encoded.
    ///
    /// Every signature that comes out is the encoding of a reply of the
    /// backend, and recovers the public key that is cached for `identity`
    /// afterwards. A failed lookup is handed on as it is; after a lookup
    /// that succeeded, a digest of the wrong length fails with
    /// `InvalidInput`.
    pub fn sign_and_encode<B: Fn(&KeyIdentity, &BackendRequest, u64) -> BackendEvent>(
        &mut self,
        identity: &KeyIdentity,
        digest: &Vec<u8>,
        chain_id: Option<u64>,
        backend: &B,
    ) -> (out: Result<EvmSignature, SignerError>)
        requires
            old(self).wf(),
            cached_key(old(self).keys(), identity@) is None ==> may_fetch(*backend, identity),
            digest@.len() == DIGEST_LEN ==> may_sign(*backend, identity, digest@),
        ensures
            final(self).wf(),
            final(self).config_of() == old(self).config_of(),
            exists|key: Result<Vec<u8>, SignerError>|
                {
                    &&& #[trigger] looked_up(
                        *backend,
                        identity,
                        old(self).config_of().retry,
                        old(self).keys(),
                        final(self).keys(),
                        key,
                    )
                    &&& match key {
                        Err(e) => outcome_view(out) == Err::<EvmSignatureView, SignerError>(e),
                        Ok(k) => signed_with(
                            *backend,
                            identity,
                            old(self).config_of().retry,
                            digest@,
                            k@,
                            chain_id,
                            old(self).config_of().convention,
                            out,
                        ),
                    }
                },
            out matches Ok(sig) ==> exists|key: Seq<u8>|
                {
                    &&& cached_key(final(self).keys(), identity@) == Some(key)
                    &&& recovery_id_of(sig@.v, chain_id, old(self).config_of().convention) is Some
                    &&& #[trigger] recovered_key(
                        digest@,
                        sig@.r + sig@.s,
                        recovery_id_of(sig@.v, chain_id, old(self).config_of().convention)->Some_0,
                        wants_compressed(key),
                    ) == Some(key)
                },
    {
        let ghost before = self.cache@;
        let looked = self.public_key(identity, backend);
        let key = match looked {
            Ok(key) => key,
            Err(e) => {
                assert(looked_up(*backend, identity, self.config.retry, before, self.cache@, looked));
                return Err(e);
            },
        };
        assert(looked_up(*backend, identity, self.config.retry, before, self.cache@, Ok(key)));
        assert(cached_key(self.cache@, identity@) == Some(key@));
        let raw = match self.sign_digest(identity, digest, backend) {
            Ok(raw) => raw,
            Err(e) => {
                return Err(e);
            },
        };
        let out = encode(&raw, digest, &key, chain_id, self.config.convention);
        proof {
            if out is Ok {
                lemma_encoded_signature_recovers(
                    raw@,
                    digest@,
                    key@,
                    chain_id,
                    self.config.convention,
                );
            }
        }
        out
    }
}

/// How signing and encoding may end once the public key `key` is known: a
/// digest of the wrong length fails with `InvalidInput`; a failure of the
/// signing call is handed on; a reply is encoded against `key`.
pub open spec fn signed_with<B: Fn(&KeyIdentity, &BackendRequest, u64) -> BackendEvent>(
    backend: B,
    identity: &KeyIdentity,
    policy: RetryPolicy,
    digest: Seq<u8>,
    key: Seq<u8>,
    chain_id: Option<u64>,
    convention: VConvention,
    out: Result<EvmSignature, SignerError>,
) -> bool {
    if digest.len() != DIGEST_LEN {
        outcome_view(out) == Err::<EvmSignatureView, SignerError>(SignerError::InvalidInput)
    } else {
        exists|raw: Result<Vec<u8>, SignerError>|
            {
                &&& #[trigger] signed_by(backend, identity, policy, digest, raw)
                &&& match raw {
                    Err(e) => outcome_view(out) == Err::<EvmSignatureView, SignerError>(e),
                    Ok(bytes) => outcome_view(out) == encoded(
                        bytes@,
                        digest,
                        key,
                        chain_id,
                        convention,
                    ),
                }
            }
    }
}

/// The public-key endpoint: the key of the configured identity, or the text
/// of the failure. Asking again is answered from the cache, without a call
/// of `backend`.
pub fn get_public_key<B: Fn(&KeyIdentity, &BackendRequest, u64) -> BackendEvent>(
    signer: &mut SignerFacade,
    backend: &B,
) -> (reply: Result<PublicKeyReply, String>)
    requires
        old(signer).wf(),
        cached_key(old(signer).keys(), old(signer).config_of().identity@) is None ==> forall|
            identity: &KeyIdentity,
        |
            identity@ == old(signer).config_of().identity@ ==> #[trigger] may_fetch(
                *backend,
                identity,
            ),
    ensures
        final(signer).wf(),
        final(signer).config_of() == old(signer).config_of(),
        exists|identity: KeyIdentity, found: Result<Vec<u8>, SignerError>|
            {
                &&& identity@ == old(signer).config_of().identity@
                &&& #[trigger] looked_up(
                    *backend,
                    &identity,
                    old(signer).config_of().retry,
                    old(signer).keys(),
                    final(signer).keys(),
                    found,
                )
                &&& reply_view(reply) == rendered(fetch_view(found))
            },
{
    let identity = signer.config.identity.clone();
    let ghost before = signer.cache@;
    let found = signer.public_key(&identity, backend);
    assert(looked_up(*backend, &identity, signer.config.retry, before, signer.cache@, found));
    render_reply(found)
}

} // verus!
