//! The key with which a participant signs its approvals.
use near_crypto::{ED25519SecretKey, KeyType, SecretKey};
use vstd::prelude::*;

verus! {

/// Whether the two halves of a 64-byte Ed25519 key pair belong together: the first half is the
/// secret, the second the public key that follows from it.
pub uninterp spec fn ed25519_halves_match(key_pair: Seq<u8>) -> bool;

/// The Ed25519 key pair that a seed phrase stands for.
pub uninterp spec fn ed25519_seed_key_pair(seed: Seq<char>) -> Seq<u8>;

/// The bytes of the Ed25519 signature on `data` under `key_pair`.
pub uninterp spec fn ed25519_signature(key_pair: Seq<u8>, data: Seq<u8>) -> Seq<u8>;

/// Calls `ed25519_dalek::SigningKey::from_keypair_bytes`, which derives the public key from the
/// first half of `key_pair` and accepts the pair if and only if the second half decodes to that
/// same key. The contract gives this verdict a name and claims no more of it.
#[verifier::external_body]
fn halves_match(key_pair: &[u8; 64]) -> (matching: bool)
    ensures
        matching == ed25519_halves_match(key_pair@),
{
    ed25519_dalek::SigningKey::from_keypair_bytes(key_pair).is_ok()
}

/// Calls `near_crypto::SecretKey::from_seed` for an Ed25519 key. The contract claims that the
/// pair depends on the seed alone, and that its halves belong together: `from_seed` takes the
/// pair out of one signing key.
#[verifier::external_body]
fn key_pair_from_seed(seed: &str) -> (key_pair: [u8; 64])
    ensures
        key_pair@ == ed25519_seed_key_pair(seed@),
        ed25519_halves_match(key_pair@),
{
    SecretKey::from_seed(KeyType::ED25519, seed).unwrap_as_ed25519().0
}

/// Calls `near_crypto::SecretKey::sign` on an Ed25519 key. The contract claims that the signature
/// depends on the key pair and the signed bytes alone. `sign` panics on a pair whose halves do not
/// belong together, so such a pair is left out.
#[verifier::external_body]
fn sign_with_key_pair(key_pair: &[u8; 64], data: &[u8]) -> (signature: Vec<u8>)
    requires
        ed25519_halves_match(key_pair@),
    ensures
        signature@ == ed25519_signature(key_pair@, data@),
{
    match SecretKey::ED25519(ED25519SecretKey(*key_pair)).sign(data) {
        near_crypto::Signature::ED25519(signature) => signature.to_bytes().to_vec(),
        near_crypto::Signature::SECP256K1(signature) => <[u8; 65]>::from(signature).to_vec(),
    }
}

/// Signs with an Ed25519 key that is held in memory.
pub struct Signer {
    key_pair: [u8; 64],
}

impl Signer {
    /// The key pair, secret half first.
    pub closed spec fn key_pair(self) -> Seq<u8> {
        self.key_pair@
    }

    #[verifier::type_invariant]
    spec fn can_sign(self) -> bool {
        ed25519_halves_match(self.key_pair@)
    }

    /// The signer whose key a seed phrase stands for.
    pub fn from_seed(seed: &str) -> (signer: Signer)
        ensures
            signer.key_pair() == ed25519_seed_key_pair(seed@),
    {
        Signer { key_pair: key_pair_from_seed(seed) }
    }

    /// The signer that holds `key_pair`, or `None` where the halves of the pair do not belong
    /// together.
    pub fn from_key_pair(key_pair: [u8; 64]) -> (signer: Option<Signer>)
        ensures
            signer is Some <==> ed25519_halves_match(key_pair@),
            signer matches Some(signer) ==> signer.key_pair() == key_pair@,
    {
        if halves_match(&key_pair) {
            Some(Signer { key_pair })
        } else {
            None
        }
    }

    /// Signs `data`.
    pub fn sign(&self, data: &[u8]) -> (signature: Vec<u8>)
        ensures
            signature@ == ed25519_signature(self.key_pair(), data@),
    {
        proof {
            use_type_invariant(self);
        }
        sign_with_key_pair(&self.key_pair, data)
    }
}

} // verus!
