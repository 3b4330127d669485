//! From a raw threshold signature to an EVM `(r, s, v)` triple.
//!
//! The recovery id is found by recovering a public key for each of the two
//! candidates and keeping the one that gives back the expected key, byte for
//! byte. Nothing is guessed: where neither candidate fits, encoding fails.
use vstd::prelude::*;
use crate::bytes::{bytes_equal, copy_range};
use crate::error::SignerError;

verus! {

/// Length of a digest in bytes.
pub const DIGEST_LEN: usize = 32;

/// Length of a raw signature, `r` followed by `s`.
pub const RAW_SIGNATURE_LEN: usize = 64;

/// Length of a compressed public key.
pub const COMPRESSED_KEY_LEN: usize = 33;

/// How `v` is written when no chain id is given. The choice is made by the
/// caller's configuration and never inferred.
#[derive(Clone, Copy, Debug, PartialEq, Eq, Structural)]
pub enum VConvention {
    /// `v` is the recovery id itself, 0 or 1.
    Raw,
    /// `v` is the recovery id plus 27.
    Legacy,
}

/// An EVM signature. Only the codec makes one.
#[derive(Debug)]
pub struct EvmSignature {
    r: Vec<u8>,
    s: Vec<u8>,
    v: u128,
}

/// The mathematical value of an `EvmSignature`.
pub struct EvmSignatureView {
    pub r: Seq<u8>,
    pub s: Seq<u8>,
    pub v: nat,
}

impl View for EvmSignature {
    type V = EvmSignatureView;

    closed spec fn view(&self) -> EvmSignatureView {
        EvmSignatureView { r: self.r@, s: self.s@, v: self.v as nat }
    }
}

/// The public key, in SEC1 encoding (compressed or not), that secp256k1
/// recovery yields for a digest, a raw signature and a recovery candidate;
/// `None` where recovery fails.
pub uninterp spec fn recovered_key(
    digest: Seq<u8>,
    signature: Seq<u8>,
    candidate: u8,
    compressed: bool,
) -> Option<Seq<u8>>;

/// What is added to the recovery id to give `v`.
pub open spec fn v_offset(chain_id: Option<u64>, convention: VConvention) -> nat {
    match chain_id {
        Some(id) => (35 + 2 * id) as nat,
        None => match convention {
            VConvention::Raw => 0,
            VConvention::Legacy => 27,
        },
    }
}

/// The value of `v` for a recovery candidate.
pub open spec fn v_value(candidate: u8, chain_id: Option<u64>, convention: VConvention) -> nat {
    candidate as nat + v_offset(chain_id, convention)
}

/// The recovery id that a value of `v` stands for, if it stands for one.
pub open spec fn recovery_id_of(v: nat, chain_id: Option<u64>, convention: VConvention) -> Option<
    u8,
> {
    if v == v_value(0, chain_id, convention) {
        Some(0u8)
    } else if v == v_value(1, chain_id, convention) {
        Some(1u8)
    } else {
        None
    }
}

/// The view of an optional key.
pub open spec fn key_view(key: Option<Vec<u8>>) -> Option<Seq<u8>> {
    match key {
        Some(k) => Some(k@),
        None => None,
    }
}

/// The view of an encoding result.
pub open spec fn outcome_view(out: Result<EvmSignature, SignerError>) -> Result<
    EvmSignatureView,
    SignerError,
> {
    match out {
        Ok(sig) => Ok(sig@),
        Err(e) => Err(e),
    }
}

/// The candidate that is kept: the first of 0 and 1 whose recovered key is
/// the expected one.
pub open spec fn chosen_candidate(
    first: Option<Seq<u8>>,
    second: Option<Seq<u8>>,
    expected: Seq<u8>,
) -> Option<u8> {
    if first == Some(expected) {
        Some(0u8)
    } else if second == Some(expected) {
        Some(1u8)
    } else {
        None
    }
}

/// The signature that a raw signature and the two recovered keys give.
pub open spec fn assembled(
    raw: Seq<u8>,
    first: Option<Seq<u8>>,
    second: Option<Seq<u8>>,
    expected: Seq<u8>,
    chain_id: Option<u64>,
    convention: VConvention,
) -> Result<EvmSignatureView, SignerError> {
    if raw.len() != RAW_SIGNATURE_LEN {
        Err(SignerError::InvalidInput)
    } else {
        match chosen_candidate(first, second, expected) {
            Some(c) => Ok(
                EvmSignatureView {
                    r: raw.subrange(0, 32),
                    s: raw.subrange(32, 64),
                    v: v_value(c, chain_id, convention),
                },
            ),
            None => Err(SignerError::Integrity),
        }
    }
}

/// Whether keys of the expected key's length are in compressed form.
pub open spec fn wants_compressed(expected: Seq<u8>) -> bool {
    expected.len() == COMPRESSED_KEY_LEN
}

/// What `encode` returns.
pub open spec fn encoded(
    raw: Seq<u8>,
    digest: Seq<u8>,
    expected: Seq<u8>,
    chain_id: Option<u64>,
    convention: VConvention,
) -> Result<EvmSignatureView, SignerError> {
    if digest.len() != DIGEST_LEN {
        Err(SignerError::InvalidInput)
    } else {
        assembled(
            raw,
            recovered_key(digest, raw, 0, wants_compressed(expected)),
            recovered_key(digest, raw, 1, wants_compressed(expected)),
            expected,
            chain_id,
            convention,
        )
    }
}

/// Calls `k256::ecdsa::Signature::from_slice`, `RecoveryId::from_byte`,
/// `VerifyingKey::recover_from_prehash` and `VerifyingKey::to_encoded_point`
/// in turn. The contract only gives the outcome its name: the key that
/// recovery yields is a function of the four arguments, and `None` stands
/// for every failure of parsing or recovery (a signature that is not 64
/// bytes or has a half that is zero or not below the group order, a
/// candidate above 3, a point that does not
/// exist, a signature that the recovered key does not verify, which for
/// this curve includes every signature whose `s` lies in the upper half of
/// its range). Nothing about which key comes out is proved here.
#[verifier::external_body]
fn recover_public_key(digest: &Vec<u8>, signature: &Vec<u8>, candidate: u8, compressed: bool) -> (key:
    Option<Vec<u8>>)
    ensures
        key_view(key) == recovered_key(digest@, signature@, candidate, compressed),
{
    let parsed = k256::ecdsa::Signature::from_slice(signature).ok()?;
    let id = k256::ecdsa::RecoveryId::from_byte(candidate)?;
    let point = k256::ecdsa::VerifyingKey::recover_from_prehash(digest, &parsed, id).ok()?;
    Some(point.to_encoded_point(compressed).as_bytes().to_vec())
}

/// Whether a recovered key is present and equal to the expected key.
pub fn is_expected_key(recovered: &Option<Vec<u8>>, expected: &Vec<u8>) -> (same: bool)
    ensures
        same == (key_view(*recovered) == Some(expected@)),
{
    match recovered {
        Some(k) => bytes_equal(k, expected),
        None => false,
    }
}

/// Picks the recovery id from the keys recovered for candidates 0 and 1.
/// Fails with `Integrity` exactly when neither is the expected key.
pub fn resolve_recovery_id(
    first: &Option<Vec<u8>>,
    second: &Option<Vec<u8>>,
    expected: &Vec<u8>,
) -> (out: Result<u8, SignerError>)
    ensures
        match chosen_candidate(key_view(*first), key_view(*second), expected@) {
            Some(c) => out == Ok::<u8, SignerError>(c),
            None => out == Err::<u8, SignerError>(SignerError::Integrity),
        },
{
    if is_expected_key(first, expected) {
        Ok(0)
    } else if is_expected_key(second, expected) {
        Ok(1)
    } else {
        Err(SignerError::Integrity)
    }
}

/// The value of `v` for a recovery id: with a chain id, the id plus
/// `35 + 2 * chain_id`; without one, the id itself or the id plus 27.
pub fn encode_v(candidate: u8, chain_id: Option<u64>, convention: VConvention) -> (v: u128)
    ensures
        v == v_value(candidate, chain_id, convention),
{
    let offset: u128 = match chain_id {
        Some(id) => {
            let wide: u128 = id as u128;
            35 + 2 * wide
        },
        None => match convention {
            VConvention::Raw => 0,
            VConvention::Legacy => 27,
        },
    };
    candidate as u128 + offset
}

/// Builds the signature from a raw signature and the keys recovered for
/// candidates 0 and 1.
pub fn encode_recovered(
    raw: &Vec<u8>,
    first: &Option<Vec<u8>>,
    second: &Option<Vec<u8>>,
    expected: &Vec<u8>,
    chain_id: Option<u64>,
    convention: VConvention,
) -> (out: Result<EvmSignature, SignerError>)
    ensures
        outcome_view(out) == assembled(
            raw@,
            key_view(*first),
            key_view(*second),
            expected@,
            chain_id,
            convention,
        ),
{
    if raw.len() != RAW_SIGNATURE_LEN {
        return Err(SignerError::InvalidInput);
    }
    match resolve_recovery_id(first, second, expected) {
        Ok(c) => Ok(
            EvmSignature {
                r: copy_range(raw, 0, 32),
                s: copy_range(raw, 32, 64),
                v: encode_v(c, chain_id, convention),
            },
        ),
        Err(e) => Err(e),
    }
}

/// Encodes a raw signature over `digest` as an EVM signature whose recovery
/// id recovers `expected_public_key`.
///
/// Fails with `InvalidInput` where the digest is not 32 bytes or the raw
/// signature not 64, and with `Integrity` where neither recovery candidate
/// gives back the expected key.
pub fn encode(
    raw: &Vec<u8>,
    digest: &Vec<u8>,
    expected_public_key: &Vec<u8>,
    chain_id: Option<u64>,
    convention: VConvention,
) -> (out: Result<EvmSignature, SignerError>)
    ensures
        outcome_view(out) == encoded(raw@, digest@, expected_public_key@, chain_id, convention),
{
    if digest.len() != DIGEST_LEN || raw.len() != RAW_SIGNATURE_LEN {
        return Err(SignerError::InvalidInput);
    }
    let compressed = expected_public_key.len() == COMPRESSED_KEY_LEN;
    let first = recover_public_key(digest, raw, 0, compressed);
    let second = recover_public_key(digest, raw, 1, compressed);
    encode_recovered(raw, &first, &second, expected_public_key, chain_id, convention)
}

impl EvmSignature {
    /// The first half of the raw signature.
    pub fn r(&self) -> (r: &Vec<u8>)
        ensures
            r@ == self@.r,
    {
        &self.r
    }

    /// The second half of the raw signature.
    pub fn s(&self) -> (s: &Vec<u8>)
        ensures
            s@ == self@.s,
    {
        &self.s
    }

    /// The recovery byte, in the convention it was encoded with.
    pub fn v(&self) -> (v: u128)
        ensures
            v == self@.v,
    {
        self.v
    }

    /// The recovery id that `v` stands for under the given convention, or
    /// `None` where `v` was not written in it.
    pub fn recovery_id(&self, chain_id: Option<u64>, convention: VConvention) -> (id: Option<u8>)
        ensures
            id == recovery_id_of(self@.v, chain_id, convention),
    {
        if self.v == encode_v(0, chain_id, convention) {
            Some(0)
        } else if self.v == encode_v(1, chain_id, convention) {
            Some(1)
        } else {
            None
        }
    }
}

/// Encoding is a function of its inputs: equal inputs give equal signatures.
pub proof fn lemma_encode_deterministic(
    raw_a: Seq<u8>,
    digest_a: Seq<u8>,
    key_a: Seq<u8>,
    raw_b: Seq<u8>,
    digest_b: Seq<u8>,
    key_b: Seq<u8>,
    chain_id: Option<u64>,
    convention: VConvention,
)
    requires
        raw_a =~= raw_b,
        digest_a =~= digest_b,
        key_a =~= key_b,
    ensures
        encoded(raw_a, digest_a, key_a, chain_id, convention) == encoded(
            raw_b,
            digest_b,
            key_b,
            chain_id,
            convention,
        ),
{
}

/// Every signature that encoding produces recovers the expected key: its
/// `r` and `s` are the two halves of the raw signature, its `v` stands for
/// a recovery id 0 or 1, and recovery from the digest, `r` followed by `s`
/// and that id yields exactly the expected public key.
pub proof fn lemma_encoded_signature_recovers(
    raw: Seq<u8>,
    digest: Seq<u8>,
    expected: Seq<u8>,
    chain_id: Option<u64>,
    convention: VConvention,
)
    requires
        encoded(raw, digest, expected, chain_id, convention) is Ok,
    ensures
        ({
            let sig = encoded(raw, digest, expected, chain_id, convention)->Ok_0;
            &&& sig.r.len() == 32
            &&& sig.s.len() == 32
            &&& sig.r + sig.s == raw
            &&& recovery_id_of(sig.v, chain_id, convention) is Some
            &&& recovered_key(
                digest,
                sig.r + sig.s,
                recovery_id_of(sig.v, chain_id, convention)->Some_0,
                wants_compressed(expected),
            ) == Some(expected)
        }),
{
    let sig = encoded(raw, digest, expected, chain_id, convention)->Ok_0;
    assert(sig.r + sig.s =~= raw);
}

/// Where no candidate recovers the expected key, encoding yields no
/// signature: it fails, and with `Integrity` on inputs of the right lengths.
pub proof fn lemma_no_candidate_no_signature(
    raw: Seq<u8>,
    digest: Seq<u8>,
    expected: Seq<u8>,
    chain_id: Option<u64>,
    convention: VConvention,
)
    requires
        recovered_key(digest, raw, 0, wants_compressed(expected)) != Some(expected),
        recovered_key(digest, raw, 1, wants_compressed(expected)) != Some(expected),
    ensures
        encoded(raw, digest, expected, chain_id, convention) is Err,
        digest.len() == DIGEST_LEN && raw.len() == RAW_SIGNATURE_LEN ==> encoded(
            raw,
            digest,
            expected,
            chain_id,
            convention,
        ) == Err::<EvmSignatureView, SignerError>(SignerError::Integrity),
{
}

} // verus!
