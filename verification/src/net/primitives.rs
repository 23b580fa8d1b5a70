//! The cryptographic primitives of the channel, as the crates that implement them provide them.
//!
//! Nothing in this file is proved: each function hands its arguments to an outside crate, and its
//! contract says what is relied on.

use vstd::prelude::*;

use aes_gcm::aead::{Aead, KeyInit};
use sha2::Digest;

verus! {

/// The error of `aes_gcm`, which carries no information.
#[verifier::external_type_specification]
#[verifier::external_body]
pub struct ExAeadError(aes_gcm::Error);

/// The SHA-256 digest of `data`.
pub uninterp spec fn sha256(data: Seq<u8>) -> Seq<u8>;

/// The first 32 bytes of HKDF-SHA256 output for a salt, input key material and info string.
pub uninterp spec fn hkdf_sha256(salt: Seq<u8>, ikm: Seq<u8>, info: Seq<u8>) -> Seq<u8>;

/// The X25519 public key that belongs to a secret key.
pub uninterp spec fn x25519_public(secret: Seq<u8>) -> Seq<u8>;

/// The X25519 shared secret of a secret key and a public key.
pub uninterp spec fn x25519_shared(secret: Seq<u8>, public: Seq<u8>) -> Seq<u8>;

/// AES-256-GCM: the ciphertext with its tag behind it, without associated data.
pub uninterp spec fn aes256gcm_seal(key: Seq<u8>, nonce: Seq<u8>, plaintext: Seq<u8>) -> Seq<u8>;

/// AES-256-GCM: the plaintext of a ciphertext with its tag, `None` where it is not authentic.
pub uninterp spec fn aes256gcm_open(key: Seq<u8>, nonce: Seq<u8>, ciphertext: Seq<u8>) -> Option<
    Seq<u8>,
>;

/// A plaintext of this length can be encrypted: AES-GCM takes up to 2^36 bytes, and the
/// ciphertext, 16 bytes longer, has to fit into a vector.
pub open spec fn sealable(len: nat) -> bool {
    len <= 0x10_0000_0000 && len + 16 <= isize::MAX
}

/// `sha2::Sha256::digest`. The digest is a function of the data alone.
#[verifier::external_body]
pub(crate) fn sha256_digest(data: &[u8]) -> (r: [u8; 32])
    ensures
        r@ == sha256(data@),
{
    sha2::Sha256::digest(data).into()
}

/// `hkdf::Hkdf::<Sha256>::new` and `expand`, for 32 bytes of output, a length that HKDF-SHA256
/// always provides. The output is a function of the three arguments.
#[verifier::external_body]
pub(crate) fn hkdf_expand(salt: &[u8], ikm: &[u8], info: &[u8]) -> (r: [u8; 32])
    ensures
        r@ == hkdf_sha256(salt@, ikm@, info@),
{
    let mut okm = [0u8; 32];
    let hk = hkdf::Hkdf::<sha2::Sha256>::new(Some(salt), ikm);
    hk.expand(info, &mut okm).expect("HKDF expand to 32 bytes is infallible");
    okm
}

/// `x25519_dalek::PublicKey::from` of a static secret with the given bytes.
#[verifier::external_body]
pub(crate) fn public_key(secret: &[u8; 32]) -> (r: [u8; 32])
    ensures
        r@ == x25519_public(secret@),
{
    x25519_dalek::PublicKey::from(&x25519_dalek::StaticSecret::from(*secret)).to_bytes()
}

/// `x25519_dalek::StaticSecret::diffie_hellman`. The shared secret is a function of the two keys,
/// and the owner of the public key obtains the same one from this side's public key.
#[verifier::external_body]
pub(crate) fn diffie_hellman(secret: &[u8; 32], public: &[u8; 32]) -> (r: [u8; 32])
    ensures
        r@ == x25519_shared(secret@, public@),
        forall|other: Seq<u8>|
            #![trigger x25519_public(other)]
            other.len() == 32 && public@ == x25519_public(other) ==> r@ == x25519_shared(
                other,
                x25519_public(secret@),
            ),
{
    x25519_dalek::StaticSecret::from(*secret)
        .diffie_hellman(&x25519_dalek::PublicKey::from(*public))
        .to_bytes()
}

/// `x25519_dalek::StaticSecret::random_from_rng` with the operating system's generator
/// (`rand::rngs::OsRng`). Nothing is promised of the bytes, which depend on chance. Where the
/// operating system has no randomness to give, the generator panics; no argument is the cause.
#[verifier::external_body]
pub(crate) fn random_secret() -> (r: [u8; 32]) {
    x25519_dalek::StaticSecret::random_from_rng(rand::rngs::OsRng).to_bytes()
}

/// `aes_gcm::Aes256Gcm::encrypt`. For a plaintext of admitted length it succeeds, adds a tag of 16
/// bytes, and what it returns opens under the same key and nonce to the plaintext.
#[verifier::external_body]
pub(crate) fn aead_encrypt(key: &[u8; 32], nonce: &[u8], plaintext: &[u8]) -> (r: Vec<u8>)
    requires
        nonce@.len() == 12,
        sealable(plaintext@.len()),
    ensures
        r@ == aes256gcm_seal(key@, nonce@, plaintext@),
        r@.len() == plaintext@.len() + 16,
        aes256gcm_open(key@, nonce@, r@) == Some(plaintext@),
{
    let cipher = aes_gcm::Aes256Gcm::new(aes_gcm::Key::<aes_gcm::Aes256Gcm>::from_slice(key));
    cipher
        .encrypt(aes_gcm::Nonce::from_slice(nonce), plaintext)
        .expect("AES-GCM encryption must not fail with a valid key/nonce")
}

/// `aes_gcm::Aes256Gcm::decrypt`. Whether it succeeds, and with which plaintext, is a function of
/// key, nonce and ciphertext. The plaintext is shorter than the ciphertext by the tag of 16 bytes.
#[verifier::external_body]
pub(crate) fn aead_decrypt(key: &[u8; 32], nonce: &[u8], ciphertext: &[u8]) -> (r: Result<
    Vec<u8>,
    aes_gcm::Error,
>)
    requires
        nonce@.len() == 12,
    ensures
        match r {
            Ok(plaintext) => aes256gcm_open(key@, nonce@, ciphertext@) == Some(plaintext@)
                && plaintext@.len() + 16 == ciphertext@.len(),
            Err(_) => aes256gcm_open(key@, nonce@, ciphertext@) is None,
        },
{
    let cipher = aes_gcm::Aes256Gcm::new(aes_gcm::Key::<aes_gcm::Aes256Gcm>::from_slice(key));
    cipher.decrypt(aes_gcm::Nonce::from_slice(nonce), ciphertext)
}

} // verus!
