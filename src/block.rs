use vstd::prelude::*;
use crate::codec::{encode_header, header_bytes, lemma_encode_injective, Header};
use crate::crypto::{
    p256_public_of, p256_signature_of, p256_signs, p256_verifies, PrivateKey, PublicKey,
    Signature, SigningError,
};
use crate::hash::{sha256, sha256_of, BlockHash};

verus! {

/// An opaque transaction record carried by a block.
#[derive(Debug, Clone)]
pub struct Transaction {
    pub data: Vec<u8>,
    pub key: Option<PublicKey>,
    pub signature: Option<Signature>,
}

/// A header, its transactions, an optional validator signature over the
/// encoded header, and the cached header hash.
#[derive(Debug, Clone)]
pub struct Block {
    pub header: Header,
    pub transactions: Vec<Transaction>,
    pub signature: Option<Signature>,
    pub validator: Option<PublicKey>,
    pub hash: BlockHash,
}

/// Why a block's signature does not check out.
#[derive(Debug, Clone, Copy, PartialEq, Eq, Structural)]
pub enum VerificationError {
    MissingSignature,
    InvalidSignature,
}

/// The identity hash of a header: SHA-256 of its canonical encoding.
pub open spec fn header_digest(h: Header) -> Seq<u8> {
    sha256_of(header_bytes(h))
}

/// The outcome of verifying a block.
pub open spec fn verification(b: Block) -> Result<(), VerificationError> {
    match b.signature {
        None => Err(VerificationError::MissingSignature),
        Some(s) => match b.validator {
            None => Err(VerificationError::InvalidSignature),
            Some(v) => if p256_verifies(v.bytes@, header_bytes(b.header), s.bytes@) {
                Ok(())
            } else {
                Err(VerificationError::InvalidSignature)
            },
        },
    }
}

/// The block carries the signature of its current header by `secret`, and the
/// public key of `secret` as validator; that signature verifies under that key.
pub open spec fn signed_with(b: Block, secret: Seq<u8>) -> bool {
    &&& b.signature matches Some(s) && s.bytes@ == p256_signature_of(
        secret,
        header_bytes(b.header),
    )
    &&& b.validator matches Some(v) && v.bytes@ == p256_public_of(secret)
    &&& p256_verifies(
        p256_public_of(secret),
        header_bytes(b.header),
        p256_signature_of(secret, header_bytes(b.header)),
    )
}

/// The header of a fixture block.
pub open spec fn fixture_header(h: u32, prev_block: BlockHash, timestamp: i64) -> Header {
    Header { version: 1, data: None, prev_block, timestamp, height: h }
}

/// A block with the fixture header, the single `foo` transaction and the
/// header's hash.
pub open spec fn fixture_contents(b: Block, h: u32, prev_block: BlockHash, timestamp: i64) -> bool {
    &&& b.header == fixture_header(h, prev_block, timestamp)
    &&& b.transactions@.len() == 1
    &&& b.transactions@[0].data@ == fixture_payload()
    &&& b.transactions@[0].key is None
    &&& b.transactions@[0].signature is None
    &&& b.hash.bytes@ == header_digest(b.header)
}

/// The bytes `foo`, the payload of the fixture transaction.
pub open spec fn fixture_payload() -> Seq<u8> {
    seq![0x66u8, 0x6fu8, 0x6fu8]
}

/// Relies on `chrono::Utc::now` and `DateTime::timestamp`: the current time in
/// seconds since the Unix epoch.
#[verifier::external_body]
fn now_timestamp() -> (r: i64) {
    chrono::Utc::now().timestamp()
}

/// Hashes a header.
pub fn digest_header(h: &Header) -> (r: BlockHash)
    ensures
        r.bytes@ == header_digest(*h),
{
    let buf = encode_header(h);
    let d = sha256(buf.as_slice());
    match BlockHash::from_bytes(d.as_slice()) {
        Ok(x) => x,
        Err(_) => {
            proof {
                assert(false);
            }
            BlockHash::zero()
        },
    }
}

impl Block {
    /// A fresh unsigned block, its hash computed from the header.
    pub fn new(header: Header, transactions: Vec<Transaction>) -> (r: Block)
        ensures
            r.header == header,
            r.transactions@ == transactions@,
            r.signature is None,
            r.validator is None,
            r.hash.bytes@ == header_digest(header),
    {
        let hash = digest_header(&header);
        Block { header, transactions, signature: None, validator: None, hash }
    }

    /// The fixture block at height `h`: version 1, no data, the given
    /// `prev_block` and `timestamp`, one transaction whose payload is `foo`,
    /// unsigned.
    pub fn fixture_block(h: u32, prev_block: BlockHash, timestamp: i64) -> (r: Block)
        ensures
            fixture_contents(r, h, prev_block, timestamp),
            r.signature is None,
            r.validator is None,
    {
        let header = Header { version: 1, data: None, prev_block, timestamp, height: h };
        let mut data: Vec<u8> = Vec::new();
        data.push(0x66u8);
        data.push(0x6fu8);
        data.push(0x6fu8);
        assert(data@ =~= fixture_payload());
        let tx = Transaction { data, key: None, signature: None };
        let mut transactions: Vec<Transaction> = Vec::new();
        transactions.push(tx);
        Block::new(header, transactions)
    }

    /// The fixture block, signed with `key`; fails exactly when signing its
    /// header fails.
    pub fn signed_fixture_block(h: u32, prev_block: BlockHash, timestamp: i64, key: PrivateKey) -> (r:
        Result<Block, SigningError>)
        ensures
            r is Ok <==> p256_signs(key.secret(), header_bytes(fixture_header(h, prev_block, timestamp))),
            r matches Ok(b) ==> {
                &&& fixture_contents(b, h, prev_block, timestamp)
                &&& signed_with(b, key.secret())
                &&& verification(b) == Ok::<(), VerificationError>(())
            },
    {
        let ghost secret = key.secret();
        let mut b = Self::fixture_block(h, prev_block, timestamp);
        match b.sign(key) {
            Ok(()) => {
                proof {
                    lemma_sign_then_verify(b, secret);
                }
                Ok(b)
            },
            Err(e) => Err(e),
        }
    }

    /// The fixture block at height `h` with a random `prev_block` and the
    /// current time.
    pub fn random_block(h: u32) -> (r: Block)
        ensures
            fixture_contents(r, h, r.header.prev_block, r.header.timestamp),
            r.signature is None,
            r.validator is None,
    {
        Self::fixture_block(h, BlockHash::random(), now_timestamp())
    }

    /// The fixture block at height `h` with a random `prev_block` and the
    /// current time, signed with a fresh random key. Fails only when signing
    /// that header with that key fails.
    pub fn random_block_with_signature(h: u32) -> (r: Result<Block, SigningError>)
        ensures
            r matches Ok(b) ==> {
                &&& fixture_contents(b, h, b.header.prev_block, b.header.timestamp)
                &&& verification(b) == Ok::<(), VerificationError>(())
                &&& exists|secret: Seq<u8>| secret.len() == 32 && signed_with(b, secret)
            },
            r is Err ==> exists|secret: Seq<u8>, prev_block: BlockHash, timestamp: i64|
                secret.len() == 32 && !p256_signs(
                    secret,
                    header_bytes(fixture_header(h, prev_block, timestamp)),
                ),
    {
        let key = PrivateKey::generate_key();
        let ghost secret = key.secret();
        let prev_block = BlockHash::random();
        let timestamp = now_timestamp();
        let r = Self::signed_fixture_block(h, prev_block, timestamp, key);
        proof {
            if r is Err {
                assert(secret.len() == 32 && !p256_signs(
                    secret,
                    header_bytes(fixture_header(h, prev_block, timestamp)),
                ));
            }
        }
        r
    }

    /// The cached hash, recomputed from the header when it is the zero hash.
    pub fn hash(&mut self) -> (r: BlockHash)
        ensures
            final(self).header == old(self).header,
            final(self).transactions == old(self).transactions,
            final(self).signature == old(self).signature,
            final(self).validator == old(self).validator,
            old(self).hash.is_zero_spec() ==> final(self).hash.bytes@ == header_digest(
                old(self).header,
            ),
            !old(self).hash.is_zero_spec() ==> final(self).hash == old(self).hash,
            r == final(self).hash,
    {
        if self.hash.is_zero() {
            self.hash = digest_header(&self.header);
        }
        self.hash
    }

    /// The canonical encoding of the header: the bytes that are hashed and signed.
    pub fn header_data(&self) -> (r: Vec<u8>)
        ensures
            r@ == header_bytes(self.header),
    {
        encode_header(&self.header)
    }

    /// Signs the encoded header with `key` and records its public key as validator.
    pub fn sign(&mut self, key: PrivateKey) -> (r: Result<(), SigningError>)
        ensures
            final(self).header == old(self).header,
            final(self).transactions == old(self).transactions,
            final(self).hash == old(self).hash,
            r is Ok <==> p256_signs(key.secret(), header_bytes(old(self).header)),
            r is Ok ==> signed_with(*final(self), key.secret()),
            r is Ok ==> verification(*final(self)) == Ok::<(), VerificationError>(()),
            r is Err ==> final(self).signature == old(self).signature && final(self).validator
                == old(self).validator,
    {
        let msg = self.header_data();
        match key.sign(msg.as_slice()) {
            Ok(sig) => {
                self.signature = Some(sig);
                self.validator = Some(key.generate_public());
                Ok(())
            },
            Err(e) => Err(e),
        }
    }

    /// Checks the signature against the freshly encoded header and the validator key.
    pub fn verify(&self) -> (r: Result<(), VerificationError>)
        ensures
            r == verification(*self),
    {
        match &self.signature {
            None => Err(VerificationError::MissingSignature),
            Some(sig) => match &self.validator {
                None => Err(VerificationError::InvalidSignature),
                Some(validator) => {
                    let msg = self.header_data();
                    if validator.verify(msg.as_slice(), sig) {
                        Ok(())
                    } else {
                        Err(VerificationError::InvalidSignature)
                    }
                },
            },
        }
    }
}

/// Hashing is deterministic: equal headers encode to equal bytes and hash to
/// equal digests.
pub proof fn lemma_hash_deterministic(h1: Header, h2: Header)
    requires
        h1 == h2,
    ensures
        header_bytes(h1) == header_bytes(h2),
        header_digest(h1) == header_digest(h2),
{
}

/// Headers that differ in any field are hashed from different bytes.
pub proof fn lemma_hash_input_sensitive(h1: Header, h2: Header)
    requires
        h1 != h2,
    ensures
        header_bytes(h1) != header_bytes(h2),
{
    lemma_encode_injective(h1, h2);
}

/// A block signed with a key, and not changed since, verifies.
pub proof fn lemma_sign_then_verify(b: Block, secret: Seq<u8>)
    requires
        signed_with(b, secret),
    ensures
        verification(b) == Ok::<(), VerificationError>(()),
{
}

/// After the validator of a signed block is replaced by another key, the
/// block's signature is checked against that other key, and a failure is
/// reported as an invalid signature.
pub proof fn lemma_replaced_validator(b: Block, secret: Seq<u8>, other: PublicKey)
    requires
        signed_with(b, secret),
    ensures
        ({
            let c = Block { validator: Some(other), ..b };
            &&& verification(c) is Ok <==> p256_verifies(
                other.bytes@,
                header_bytes(b.header),
                p256_signature_of(secret, header_bytes(b.header)),
            )
            &&& verification(c) is Err ==> verification(c) == Err::<(), VerificationError>(
                VerificationError::InvalidSignature,
            )
        }),
{
}

/// After the header of a signed block is changed without signing again, the
/// signature is checked against bytes other than those that were signed, and
/// a failure is reported as an invalid signature.
pub proof fn lemma_tampered_header(b: Block, secret: Seq<u8>, h: Header)
    requires
        signed_with(b, secret),
        h != b.header,
    ensures
        ({
            let c = Block { header: h, ..b };
            &&& header_bytes(h) != header_bytes(b.header)
            &&& verification(c) is Ok <==> p256_verifies(
                p256_public_of(secret),
                header_bytes(h),
                p256_signature_of(secret, header_bytes(b.header)),
            )
            &&& verification(c) is Err ==> verification(c) == Err::<(), VerificationError>(
                VerificationError::InvalidSignature,
            )
        }),
{
    lemma_encode_injective(h, b.header);
}

} // verus!
