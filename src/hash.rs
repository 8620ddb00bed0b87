use vstd::prelude::*;
use rand_core::RngCore;
use sha2::Digest;

verus! {

/// Number of bytes in a block hash.
pub const HASH_LEN: usize = 32;

/// A fixed-width 256-bit hash value; all zero bytes is the "unset" value.
#[derive(Debug, Clone, Copy, Eq)]
pub struct BlockHash {
    pub bytes: [u8; 32],
}

/// The byte slice handed to `BlockHash::from_bytes` does not have exactly 32 bytes.
#[derive(Debug, Clone, Copy, PartialEq, Eq, Structural)]
pub struct HashConversionError {
    pub len: usize,
}

/// What SHA-256 yields for a byte sequence.
pub uninterp spec fn sha256_of(b: Seq<u8>) -> Seq<u8>;

/// Relies on `sha2::Sha256::digest`: the digest of the bytes, always 32 bytes long.
#[verifier::external_body]
pub(crate) fn sha256(b: &[u8]) -> (r: Vec<u8>)
    ensures
        r@ == sha256_of(b@),
        r@.len() == 32,
{
    sha2::Sha256::digest(b).to_vec()
}

/// Relies on `rand_core::OsRng::fill_bytes`: fills the buffer with random bytes.
#[verifier::external_body]
fn fill_random(buf: &mut [u8; 32]) {
    rand_core::OsRng.fill_bytes(buf)
}

impl PartialEq for BlockHash {
    fn eq(&self, o: &BlockHash) -> (r: bool) {
        let mut i: usize = 0;
        while i < HASH_LEN
            invariant
                i <= 32,
                forall|j: int| 0 <= j < i ==> self.bytes@[j] == o.bytes@[j],
            decreases 32 - i,
        {
            if self.bytes[i] != o.bytes[i] {
                return false;
            }
            i = i + 1;
        }
        assert(self.bytes@ =~= o.bytes@);
        true
    }
}

impl vstd::std_specs::cmp::PartialEqSpecImpl for BlockHash {
    open spec fn obeys_eq_spec() -> bool {
        true
    }

    open spec fn eq_spec(&self, o: &BlockHash) -> bool {
        self.bytes@ == o.bytes@
    }
}

impl BlockHash {
    /// The "unset" hash: 32 zero bytes.
    pub fn zero() -> (r: BlockHash)
        ensures
            r.is_zero_spec(),
    {
        BlockHash { bytes: [0u8; 32] }
    }

    pub open spec fn is_zero_spec(&self) -> bool {
        forall|i: int| 0 <= i < 32 ==> self.bytes@[i] == 0u8
    }

    pub fn is_zero(&self) -> (r: bool)
        ensures
            r == self.is_zero_spec(),
    {
        let mut i: usize = 0;
        while i < HASH_LEN
            invariant
                i <= 32,
                forall|j: int| 0 <= j < i ==> self.bytes@[j] == 0u8,
            decreases 32 - i,
        {
            if self.bytes[i] != 0 {
                return false;
            }
            i = i + 1;
        }
        true
    }

    /// Builds a hash from exactly 32 bytes.
    pub fn from_bytes(b: &[u8]) -> (r: Result<BlockHash, HashConversionError>)
        ensures
            b@.len() == 32 <==> r is Ok,
            r matches Ok(h) ==> h.bytes@ == b@,
            r matches Err(e) ==> e.len == b@.len(),
    {
        if b.len() != HASH_LEN {
            return Err(HashConversionError { len: b.len() });
        }
        let mut bytes = [0u8; 32];
        let mut i: usize = 0;
        while i < HASH_LEN
            invariant
                i <= 32,
                b@.len() == 32,
                bytes@.len() == 32,
                forall|j: int| 0 <= j < i ==> bytes@[j] == b@[j],
            decreases 32 - i,
        {
            bytes[i] = b[i];
            i = i + 1;
        }
        assert(bytes@ =~= b@);
        Ok(BlockHash { bytes })
    }

    /// The 32 bytes of the hash.
    pub fn to_vec(&self) -> (r: Vec<u8>)
        ensures
            r@ == self.bytes@,
    {
        let mut v: Vec<u8> = Vec::new();
        let mut i: usize = 0;
        while i < HASH_LEN
            invariant
                i <= 32,
                v@ =~= self.bytes@.subrange(0, i as int),
            decreases 32 - i,
        {
            v.push(self.bytes[i]);
            i = i + 1;
        }
        v
    }

    /// A hash of random bytes (for fixtures).
    pub fn random() -> (r: BlockHash) {
        let mut bytes = [0u8; 32];
        fill_random(&mut bytes);
        BlockHash { bytes }
    }
}

} // verus!
