use vstd::prelude::*;
use p256::ecdsa::signature::{Signer, Verifier};

verus! {

/// An ECDSA P-256 signature: the 64 bytes `r || s`.
#[derive(Debug, Clone)]
pub struct Signature {
    pub bytes: Vec<u8>,
}

/// A P-256 public key in uncompressed SEC1 form.
#[derive(Debug, Clone)]
pub struct PublicKey {
    pub bytes: Vec<u8>,
}

/// A P-256 secret scalar (32 big-endian bytes) and its public key.
#[derive(Debug)]
pub struct PrivateKey {
    secret: Vec<u8>,
    public: Vec<u8>,
}

/// The underlying signature primitive refused the key.
#[derive(Debug, Clone, Copy, PartialEq, Eq, Structural)]
pub struct SigningError;

/// The uncompressed SEC1 public key that belongs to a secret scalar.
pub uninterp spec fn p256_public_of(secret: Seq<u8>) -> Seq<u8>;

/// The deterministic (RFC 6979) ECDSA P-256 / SHA-256 signature of a message.
pub uninterp spec fn p256_signature_of(secret: Seq<u8>, msg: Seq<u8>) -> Seq<u8>;

/// Whether ECDSA P-256 / SHA-256 signing of a message with a secret succeeds:
/// the secret parses as a nonzero scalar and the signing primitive succeeds.
pub uninterp spec fn p256_signs(secret: Seq<u8>, msg: Seq<u8>) -> bool;

/// Whether a public key and a signature, given as bytes, parse and verify
/// a message under ECDSA P-256 / SHA-256.
pub uninterp spec fn p256_verifies(public: Seq<u8>, msg: Seq<u8>, sig: Seq<u8>) -> bool;

/// Relies on `p256::ecdsa::SigningKey::random` with the OS generator, then
/// `to_bytes`, and `verifying_key` encoded by `to_encoded_point(false)`: a fresh
/// random 32-byte secret scalar and its uncompressed public key.
#[verifier::external_body]
fn random_key_pair() -> (r: (Vec<u8>, Vec<u8>))
    ensures
        r.0@.len() == 32,
        r.1@ == p256_public_of(r.0@),
{
    let k = p256::ecdsa::SigningKey::random(&mut rand_core::OsRng);
    let public = k.verifying_key().to_encoded_point(false).as_bytes().to_vec();
    (k.to_bytes().to_vec(), public)
}

/// Relies on `p256::ecdsa::SigningKey::from_slice` and `Signer::try_sign`
/// (RFC 6979 nonces, so the signature depends on key and message alone), then
/// `Signature::to_bytes`, which yields 64 bytes. A signature made this way
/// verifies under the key's public key, as p256's ECDSA documentation shows.
#[verifier::external_body]
fn sign_bytes(secret: &[u8], msg: &[u8]) -> (r: Option<Vec<u8>>)
    ensures
        r is Some <==> p256_signs(secret@, msg@),
        r matches Some(s) ==> s@ == p256_signature_of(secret@, msg@) && s@.len() == 64,
        r matches Some(s) ==> p256_verifies(p256_public_of(secret@), msg@, s@),
{
    match p256::ecdsa::SigningKey::from_slice(secret) {
        Ok(k) => match Signer::<p256::ecdsa::Signature>::try_sign(&k, msg) {
            Ok(s) => Some(s.to_bytes().to_vec()),
            Err(_) => None,
        },
        Err(_) => None,
    }
}

/// Relies on `p256::ecdsa::VerifyingKey::from_sec1_bytes`,
/// `p256::ecdsa::Signature::from_slice` and `Verifier::verify`: whether both
/// parse and the signature verifies the message.
#[verifier::external_body]
fn verify_bytes(public: &[u8], msg: &[u8], sig: &[u8]) -> (r: bool)
    ensures
        r == p256_verifies(public@, msg@, sig@),
{
    match (
        p256::ecdsa::VerifyingKey::from_sec1_bytes(public),
        p256::ecdsa::Signature::from_slice(sig),
    ) {
        (Ok(k), Ok(s)) => k.verify(msg, &s).is_ok(),
        _ => false,
    }
}

impl PrivateKey {
    #[verifier::type_invariant]
    spec fn inv(self) -> bool {
        self.public@ == p256_public_of(self.secret@)
    }

    /// The secret scalar bytes.
    pub closed spec fn secret(self) -> Seq<u8> {
        self.secret@
    }

    /// A fresh random key.
    pub fn generate_key() -> (r: PrivateKey)
        ensures
            r.secret().len() == 32,
    {
        let (secret, public) = random_key_pair();
        PrivateKey { secret, public }
    }

    /// The public key that belongs to this key.
    pub fn generate_public(&self) -> (r: PublicKey)
        ensures
            r.bytes@ == p256_public_of(self.secret()),
    {
        proof {
            use_type_invariant(self);
        }
        PublicKey { bytes: self.public.clone() }
    }

    /// Signs a message; fails exactly when the signing primitive fails.
    pub fn sign(&self, msg: &[u8]) -> (r: Result<Signature, SigningError>)
        ensures
            r is Ok <==> p256_signs(self.secret(), msg@),
            r matches Ok(s) ==> s.bytes@ == p256_signature_of(self.secret(), msg@)
                && s.bytes@.len() == 64,
            r matches Ok(s) ==> p256_verifies(p256_public_of(self.secret()), msg@, s.bytes@),
    {
        match sign_bytes(self.secret.as_slice(), msg) {
            Some(bytes) => Ok(Signature { bytes }),
            None => Err(SigningError),
        }
    }
}

impl PublicKey {
    /// Whether `sig` is a valid signature of `msg` under this key.
    pub fn verify(&self, msg: &[u8], sig: &Signature) -> (r: bool)
        ensures
            r == p256_verifies(self.bytes@, msg@, sig.bytes@),
    {
        verify_bytes(self.bytes.as_slice(), msg, sig.bytes.as_slice())
    }
}

} // verus!
