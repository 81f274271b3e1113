//! Keypairs in byte form, and the generator that produces fresh ones.

use crate::encoding::base58_text;
use crate::encoding::encode_base58;
use rayon::iter::IntoParallelIterator;
use rayon::iter::ParallelIterator;
#[allow(deprecated)]
use solana_sdk::signature::Signer;
use vstd::prelude::*;

verus! {

/// The Ed25519 public key that belongs to a 32-byte secret key.
///
/// It is the key that `solana_sdk`'s `Keypair` derives when it is built from
/// the secret key, and it is a function of the secret key alone; nothing
/// else about it is stated here.
pub uninterp spec fn ed25519_public_key(secret: Seq<u8>) -> Seq<u8>;

/// An Ed25519 keypair as its 64 bytes: the 32 bytes of the secret key
/// followed by the 32 bytes of the public key.
///
/// The public key is kept a second time on its own, since every candidate's
/// address is derived from it; the two copies always agree.
#[derive(Clone, Copy, Debug)]
pub struct KeypairBytes {
    bytes: [u8; 64],
    public: [u8; 32],
}

impl View for KeypairBytes {
    type V = Seq<u8>;

    closed spec fn view(&self) -> Seq<u8> {
        self.bytes@
    }
}

impl KeypairBytes {
    #[verifier::type_invariant]
    spec fn consistent(&self) -> bool {
        self.public@ == self.bytes@.subrange(32, 64)
    }

    /// The secret key: the first half of the keypair's bytes.
    pub open spec fn spec_secret_key(&self) -> Seq<u8> {
        self@.subrange(0, 32)
    }

    /// The public key: the second half of the keypair's bytes.
    pub open spec fn spec_public_key(&self) -> Seq<u8> {
        self@.subrange(32, 64)
    }

    /// The two halves belong together: the public key is the one that
    /// Ed25519 derives from the secret key. Bytes put together by hand need
    /// not be genuine; a generated keypair always is.
    pub open spec fn genuine(&self) -> bool {
        self.spec_public_key() == ed25519_public_key(self.spec_secret_key())
    }

    /// The keypair's address: the base58 text of its public key.
    pub open spec fn spec_address(&self) -> Seq<char> {
        base58_text(self.spec_public_key())
    }

    /// Wraps the 64 bytes of a keypair.
    pub fn from_bytes(bytes: [u8; 64]) -> (keypair: KeypairBytes)
        ensures
            keypair@ == bytes@,
    {
        let mut public: [u8; 32] = [0u8; 32];
        let mut i: usize = 0;
        while i < 32
            invariant
                i <= 32,
                forall|k: int| 0 <= k < i ==> public@[k] == bytes@[32 + k],
            decreases 32 - i,
        {
            public[i] = bytes[32 + i];
            i = i + 1;
        }
        assert(public@ =~= bytes@.subrange(32, 64));
        KeypairBytes { bytes, public }
    }

    /// The 64 bytes of the keypair.
    pub fn to_bytes(&self) -> (bytes: [u8; 64])
        ensures
            bytes@ == self@,
            bytes@.len() == 64,
    {
        self.bytes
    }

    /// The 32 bytes of the public key.
    pub fn public_key(&self) -> (public: [u8; 32])
        ensures
            public@ == self.spec_public_key(),
    {
        proof {
            use_type_invariant(self);
        }
        self.public
    }

    /// The address of the keypair as text: its public key in base58.
    pub fn address(&self) -> (text: String)
        ensures
            text@ == self.spec_address(),
    {
        let public: [u8; 32] = self.public_key();
        encode_base58(public.as_slice())
    }
}

/// Calls `Keypair::new()` of `solana_sdk`, then `to_bytes()` and
/// `pubkey().to_bytes()` on the new keypair.
///
/// Trusted: the public key that the keypair reports is the second half of its
/// 64 bytes, and it is the key derived from the secret key in the first half:
/// the keypair is built from 32 random bytes, keeps them as its secret key
/// and derives its public key from them. Which keypair comes back is left
/// open: the secret key is drawn at random.
#[verifier::external_body]
#[allow(deprecated)]
fn fresh_keypair() -> (parts: ([u8; 64], [u8; 32]))
    ensures
        parts.1@ == parts.0@.subrange(32, 64),
        parts.1@ == ed25519_public_key(parts.0@.subrange(0, 32)),
{
    let keypair = solana_sdk::signature::Keypair::new();
    (keypair.to_bytes(), keypair.pubkey().to_bytes())
}

/// Generates one fresh, random keypair: a secret key drawn at random and the
/// public key derived from it. Calls are independent of one another and may
/// run on any number of threads at once.
pub fn generate_keypair() -> (keypair: KeypairBytes)
    ensures
        keypair.genuine(),
        keypair@.len() == 64,
{
    let (bytes, public) = fresh_keypair();
    KeypairBytes { bytes, public }
}

/// Generates `batch_size` independent keypairs in parallel, with no matching.
///
/// Runs `generate_keypair` once per index of `0..batch_size` on rayon's
/// global pool and collects the results. Trusted: collecting an indexed
/// parallel iterator yields one item per index.
#[verifier::external_body]
pub fn generate_keypair_batch(batch_size: usize) -> (batch: Vec<KeypairBytes>)
    ensures
        batch@.len() == batch_size,
{
    (0..batch_size).into_par_iter().map(|_| generate_keypair()).collect()
}

} // verus!
