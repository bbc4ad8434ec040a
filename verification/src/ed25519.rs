//! Ed25519 keys: generating a key pair and signing.
use ed25519_dalek::pkcs8::spki::der::pem::LineEnding;
use ed25519_dalek::pkcs8::{EncodePrivateKey, EncodePublicKey};
use ed25519_dalek::{Signer, SigningKey};
use vstd::prelude::*;

verus! {

/// The Ed25519 signature (RFC 8032) of a message under the 32-byte secret key.
pub uninterp spec fn ed25519_signature(secret: Seq<u8>, message: Seq<u8>) -> Seq<u8>;

/// The public key of a 32-byte secret key, as an SPKI PEM document.
pub uninterp spec fn ed25519_public_key_pem(secret: Seq<u8>) -> Seq<char>;

/// A 32-byte secret key as a PKCS#8 PEM document.
pub uninterp spec fn ed25519_private_key_pem(secret: Seq<u8>) -> Seq<char>;

/// `SigningKey::from_bytes` and `Signer::sign`, the signature as its 64 bytes.
/// Ed25519 signing is deterministic and does not fail.
#[verifier::external_body]
pub(crate) fn ed25519_sign(secret: &[u8], message: &[u8]) -> (r: Vec<u8>)
    requires
        secret@.len() == 32,
    ensures
        r@ == ed25519_signature(secret@, message@),
        r@.len() == 64,
{
    let key: [u8; 32] = match <[u8; 32]>::try_from(secret) {
        Ok(k) => k,
        Err(_) => [0u8; 32],
    };
    SigningKey::from_bytes(&key).sign(message).to_bytes().to_vec()
}

/// `SigningKey::generate` with the operating system's random source; the
/// secret key's 32 bytes.  What they are is left open.
#[verifier::external_body]
fn random_secret_key() -> (r: Vec<u8>)
    ensures
        r@.len() == 32,
{
    SigningKey::generate(&mut rand::rngs::OsRng).to_bytes().to_vec()
}

/// `SigningKey::verifying_key` and `to_public_key_pem` with `\n` line
/// endings.  Encoding a 32-byte key does not fail.
#[verifier::external_body]
fn public_key_pem(secret: &[u8]) -> (r: String)
    requires
        secret@.len() == 32,
    ensures
        r@ == ed25519_public_key_pem(secret@),
{
    let key: [u8; 32] = match <[u8; 32]>::try_from(secret) {
        Ok(k) => k,
        Err(_) => [0u8; 32],
    };
    match SigningKey::from_bytes(&key).verifying_key().to_public_key_pem(LineEnding::LF) {
        Ok(pem) => pem,
        Err(_) => String::new(),
    }
}

/// `EncodePrivateKey::to_pkcs8_pem` with `\n` line endings: the secret
/// key as a PKCS#8 PEM document.  Encoding a 32-byte key does not fail.
#[verifier::external_body]
fn private_key_pem(secret: &[u8]) -> (r: String)
    requires
        secret@.len() == 32,
    ensures
        r@ == ed25519_private_key_pem(secret@),
{
    let key: [u8; 32] = match <[u8; 32]>::try_from(secret) {
        Ok(k) => k,
        Err(_) => [0u8; 32],
    };
    match SigningKey::from_bytes(&key).to_pkcs8_pem(LineEnding::LF) {
        Ok(pem) => pem.as_str().to_owned(),
        Err(_) => String::new(),
    }
}

/// A fresh Ed25519 key pair as two PEM documents: the private key
/// (PKCS#8) and the public key (SPKI), both of one drawn secret.
pub fn generate_ed25519_keypair() -> (r: (String, String))
    ensures
        exists|secret: Seq<u8>|
            secret.len() == 32 && #[trigger] ed25519_private_key_pem(secret) == r.0@ && r.1@
                == ed25519_public_key_pem(secret),
{
    let secret = random_secret_key();
    let private_pem = private_key_pem(secret.as_slice());
    let public_pem = public_key_pem(secret.as_slice());
    (private_pem, public_pem)
}

} // verus!
