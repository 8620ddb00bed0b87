use vstd::prelude::*;
use crate::hash::{BlockHash, HASH_LEN};

verus! {

/// Chain-linkage metadata of a block.
#[derive(Debug, Clone, Copy, Eq)]
pub struct Header {
    pub version: u32,
    pub data: Option<BlockHash>,
    pub prev_block: BlockHash,
    pub timestamp: i64,
    pub height: u32,
}

impl PartialEq for Header {
    fn eq(&self, o: &Header) -> (r: bool) {
        let same_data = match (&self.data, &o.data) {
            (None, None) => true,
            (Some(a), Some(b)) => a.eq(b),
            _ => false,
        };
        let r = self.version == o.version && same_data && self.prev_block.eq(&o.prev_block)
            && self.timestamp == o.timestamp && self.height == o.height;
        proof {
            if r {
                assert(self.prev_block.bytes =~= o.prev_block.bytes);
                if self.data is Some {
                    assert(self.data->0.bytes =~= o.data->0.bytes);
                }
            }
        }
        r
    }
}

impl vstd::std_specs::cmp::PartialEqSpecImpl for Header {
    open spec fn obeys_eq_spec() -> bool {
        true
    }

    open spec fn eq_spec(&self, o: &Header) -> bool {
        self == o
    }
}

/// The encoded header bytes are malformed: truncated, trailing bytes, or an
/// unknown presence tag for the optional `data` field.
#[derive(Debug, Clone, Copy, PartialEq, Eq, Structural)]
pub struct DecodeError {
    pub len: usize,
}

/// Presence tag written before an absent `data` field.
pub const TAG_NONE: u8 = 0;

/// Presence tag written before a present `data` field.
pub const TAG_SOME: u8 = 1;

/// Length of an encoded header whose `data` is absent.
pub const SHORT_LEN: usize = 49;

/// Length of an encoded header whose `data` is present.
pub const LONG_LEN: usize = 81;

/// Little-endian bytes of a `u32`.
pub open spec fn u32_bytes(x: u32) -> Seq<u8> {
    seq![
        (x & 0xff) as u8,
        ((x >> 8u32) & 0xff) as u8,
        ((x >> 16u32) & 0xff) as u8,
        ((x >> 24u32) & 0xff) as u8,
    ]
}

/// Little-endian bytes of a `u64`.
pub open spec fn u64_bytes(x: u64) -> Seq<u8> {
    seq![
        (x & 0xff) as u8,
        ((x >> 8u64) & 0xff) as u8,
        ((x >> 16u64) & 0xff) as u8,
        ((x >> 24u64) & 0xff) as u8,
        ((x >> 32u64) & 0xff) as u8,
        ((x >> 40u64) & 0xff) as u8,
        ((x >> 48u64) & 0xff) as u8,
        ((x >> 56u64) & 0xff) as u8,
    ]
}

/// The optional `data` field: a presence tag, then the hash when present.
pub open spec fn data_bytes(d: Option<BlockHash>) -> Seq<u8> {
    match d {
        None => seq![TAG_NONE],
        Some(h) => seq![TAG_SOME] + h.bytes@,
    }
}

/// The canonical encoding of a header: version, data, prev_block, timestamp
/// (two's complement) and height, in that order, integers little-endian.
pub open spec fn header_bytes(h: Header) -> Seq<u8> {
    u32_bytes(h.version) + data_bytes(h.data) + h.prev_block.bytes@ + u64_bytes(
        h.timestamp as u64,
    ) + u32_bytes(h.height)
}

/// What `decode_header` makes of a byte sequence: the header it encodes, if any.
pub open spec fn decoded(b: Seq<u8>) -> Option<Header> {
    if exists|h: Header| header_bytes(h) == b {
        Some(choose|h: Header| header_bytes(h) == b)
    } else {
        None
    }
}

proof fn lemma_header_bytes_shape(h: Header)
    ensures
        h.data is None ==> header_bytes(h).len() == 49 && header_bytes(h)[4] == TAG_NONE,
        h.data is Some ==> header_bytes(h).len() == 81 && header_bytes(h)[4] == TAG_SOME,
{
}

proof fn lemma_u32_bytes(x: u32, b0: u8, b1: u8, b2: u8, b3: u8)
    requires
        x == (b0 as u32) | ((b1 as u32) << 8u32) | ((b2 as u32) << 16u32) | ((b3 as u32)
            << 24u32),
    ensures
        u32_bytes(x) == seq![b0, b1, b2, b3],
{
    assert(((x & 0xff) as u8) == b0 && (((x >> 8u32) & 0xff) as u8) == b1 && (((x >> 16u32)
        & 0xff) as u8) == b2 && (((x >> 24u32) & 0xff) as u8) == b3) by (bit_vector)
        requires
            x == (b0 as u32) | ((b1 as u32) << 8u32) | ((b2 as u32) << 16u32) | ((b3 as u32)
                << 24u32),
    ;
    assert(u32_bytes(x) =~= seq![b0, b1, b2, b3]);
}

proof fn lemma_u64_bytes(x: u64, b: Seq<u8>)
    requires
        b.len() == 8,
        x == (b[0] as u64) | ((b[1] as u64) << 8u64) | ((b[2] as u64) << 16u64) | ((b[3] as u64)
            << 24u64) | ((b[4] as u64) << 32u64) | ((b[5] as u64) << 40u64) | ((b[6] as u64)
            << 48u64) | ((b[7] as u64) << 56u64),
    ensures
        u64_bytes(x) == b,
{
    let (b0, b1, b2, b3, b4, b5, b6, b7) = (b[0], b[1], b[2], b[3], b[4], b[5], b[6], b[7]);
    assert(((x & 0xff) as u8) == b0 && (((x >> 8u64) & 0xff) as u8) == b1 && (((x >> 16u64)
        & 0xff) as u8) == b2 && (((x >> 24u64) & 0xff) as u8) == b3 && (((x >> 32u64) & 0xff)
        as u8) == b4 && (((x >> 40u64) & 0xff) as u8) == b5 && (((x >> 48u64) & 0xff) as u8)
        == b6 && (((x >> 56u64) & 0xff) as u8) == b7) by (bit_vector)
        requires
            x == (b0 as u64) | ((b1 as u64) << 8u64) | ((b2 as u64) << 16u64) | ((b3 as u64)
                << 24u64) | ((b4 as u64) << 32u64) | ((b5 as u64) << 40u64) | ((b6 as u64)
                << 48u64) | ((b7 as u64) << 56u64),
    ;
    assert(u64_bytes(x) =~= b);
}

proof fn lemma_i64_u64_round_trip(t: i64)
    ensures
        ((t as u64) as i64) == t,
{
    assert(((t as u64) as i64) == t) by (bit_vector);
}

fn push_u32(out: &mut Vec<u8>, x: u32)
    ensures
        final(out)@ == old(out)@ + u32_bytes(x),
{
    out.push((x & 0xff) as u8);
    out.push(((x >> 8u32) & 0xff) as u8);
    out.push(((x >> 16u32) & 0xff) as u8);
    out.push(((x >> 24u32) & 0xff) as u8);
    assert(final(out)@ =~= old(out)@ + u32_bytes(x));
}

fn push_u64(out: &mut Vec<u8>, x: u64)
    ensures
        final(out)@ == old(out)@ + u64_bytes(x),
{
    out.push((x & 0xff) as u8);
    out.push(((x >> 8u64) & 0xff) as u8);
    out.push(((x >> 16u64) & 0xff) as u8);
    out.push(((x >> 24u64) & 0xff) as u8);
    out.push(((x >> 32u64) & 0xff) as u8);
    out.push(((x >> 40u64) & 0xff) as u8);
    out.push(((x >> 48u64) & 0xff) as u8);
    out.push(((x >> 56u64) & 0xff) as u8);
    assert(final(out)@ =~= old(out)@ + u64_bytes(x));
}

fn push_hash(out: &mut Vec<u8>, h: &BlockHash)
    ensures
        final(out)@ == old(out)@ + h.bytes@,
{
    let ghost start = out@;
    let mut i: usize = 0;
    while i < HASH_LEN
        invariant
            i <= 32,
            out@ =~= start + h.bytes@.subrange(0, i as int),
        decreases 32 - i,
    {
        out.push(h.bytes[i]);
        i = i + 1;
    }
    assert(h.bytes@.subrange(0, 32) =~= h.bytes@);
}

/// Encodes a header into its canonical bytes.
pub fn encode_header(h: &Header) -> (r: Vec<u8>)
    ensures
        r@ == header_bytes(*h),
        h.data is None ==> r@.len() == SHORT_LEN,
        h.data is Some ==> r@.len() == LONG_LEN,
{
    let mut out: Vec<u8> = Vec::new();
    push_u32(&mut out, h.version);
    match &h.data {
        None => {
            out.push(TAG_NONE);
        },
        Some(d) => {
            out.push(TAG_SOME);
            push_hash(&mut out, d);
        },
    }
    push_hash(&mut out, &h.prev_block);
    push_u64(&mut out, h.timestamp as u64);
    push_u32(&mut out, h.height);
    proof {
        assert(out@ =~= header_bytes(*h));
        lemma_header_bytes_shape(*h);
    }
    out
}

fn read_u32(b: &[u8], off: usize) -> (r: u32)
    requires
        off + 4 <= b@.len(),
    ensures
        u32_bytes(r) == b@.subrange(off as int, off + 4),
{
    let x: u32 = (b[off] as u32) | ((b[off + 1] as u32) << 8u32) | ((b[off + 2] as u32)
        << 16u32) | ((b[off + 3] as u32) << 24u32);
    proof {
        lemma_u32_bytes(x, b@[off as int], b@[off + 1], b@[off + 2], b@[off + 3]);
        assert(b@.subrange(off as int, off + 4) =~= seq![
            b@[off as int],
            b@[off + 1],
            b@[off + 2],
            b@[off + 3],
        ]);
    }
    x
}

fn read_u64(b: &[u8], off: usize) -> (r: u64)
    requires
        off + 8 <= b@.len(),
    ensures
        u64_bytes(r) == b@.subrange(off as int, off + 8),
{
    let x: u64 = (b[off] as u64) | ((b[off + 1] as u64) << 8u64) | ((b[off + 2] as u64)
        << 16u64) | ((b[off + 3] as u64) << 24u64) | ((b[off + 4] as u64) << 32u64) | ((b[off
        + 5] as u64) << 40u64) | ((b[off + 6] as u64) << 48u64) | ((b[off + 7] as u64)
        << 56u64);
    proof {
        lemma_u64_bytes(x, b@.subrange(off as int, off + 8));
    }
    x
}

fn read_hash(b: &[u8], off: usize) -> (r: BlockHash)
    requires
        off + 32 <= b@.len(),
    ensures
        r.bytes@ == b@.subrange(off as int, off + 32),
{
    let n = b.len();
    let mut bytes = [0u8; 32];
    let mut i: usize = 0;
    while i < HASH_LEN
        invariant
            i <= 32,
            n == b@.len(),
            off + 32 <= b@.len(),
            bytes@.len() == 32,
            forall|j: int| 0 <= j < i ==> bytes@[j] == b@[off + j],
        decreases 32 - i,
    {
        bytes[i] = b[off + i];
        i = i + 1;
    }
    assert(bytes@ =~= b@.subrange(off as int, off + 32));
    BlockHash { bytes }
}

/// Decodes canonical header bytes; fails on any sequence that is not the
/// encoding of some header.
pub fn decode_header(b: &[u8]) -> (r: Result<Header, DecodeError>)
    ensures
        r matches Ok(h) ==> header_bytes(h) == b@ && decoded(b@) == Some(h),
        r is Err <==> decoded(b@) is None,
        r is Err <==> (forall|h: Header| header_bytes(h) != b@),
        r matches Err(e) ==> e.len == b@.len(),
{
    if b.len() < 5 {
        proof {
            assert forall|h: Header| header_bytes(h) != b@ by {
                lemma_header_bytes_shape(h);
            }
        }
        return Err(DecodeError { len: b.len() });
    }
    let tag = b[4];
    let expected: usize = if tag == TAG_NONE {
        SHORT_LEN
    } else if tag == TAG_SOME {
        LONG_LEN
    } else {
        0
    };
    if expected == 0 || b.len() != expected {
        proof {
            assert forall|h: Header| header_bytes(h) != b@ by {
                lemma_header_bytes_shape(h);
            }
        }
        return Err(DecodeError { len: b.len() });
    }
    let version = read_u32(b, 0);
    let mut off: usize = 5;
    let data = if tag == TAG_SOME {
        off = 37;
        Some(read_hash(b, 5))
    } else {
        None
    };
    let prev_block = read_hash(b, off);
    let raw_time = read_u64(b, off + 32);
    let height = read_u32(b, off + 40);
    let h = Header { version, data, prev_block, timestamp: #[verifier::truncate] (raw_time as i64), height };
    proof {
        assert((#[verifier::truncate] (raw_time as i64)) as u64 == raw_time) by (bit_vector);
        let d = data_bytes(data);
        assert(d =~= b@.subrange(4, off as int));
        assert(b@ =~= b@.subrange(0, 4) + b@.subrange(4, off as int) + b@.subrange(
            off as int,
            off + 32,
        ) + b@.subrange(off + 32, off + 40) + b@.subrange(off + 40, off + 44));
        assert(header_bytes(h) == b@);
        lemma_decode_encode(h);
    }
    Ok(h)
}

/// Where each field sits in the encoding of a header.
proof fn lemma_header_parts(h: Header)
    ensures
        ({
            let b = header_bytes(h);
            let off: int = if h.data is None { 5 } else { 37 };
            &&& b.len() == off + 44
            &&& b.subrange(0, 4) == u32_bytes(h.version)
            &&& b.subrange(4, off) == data_bytes(h.data)
            &&& b.subrange(off, off + 32) == h.prev_block.bytes@
            &&& b.subrange(off + 32, off + 40) == u64_bytes(h.timestamp as u64)
            &&& b.subrange(off + 40, off + 44) == u32_bytes(h.height)
        }),
{
    let b = header_bytes(h);
    let off: int = if h.data is None { 5 } else { 37 };
    assert(b.subrange(0, 4) =~= u32_bytes(h.version));
    assert(b.subrange(4, off) =~= data_bytes(h.data));
    assert(b.subrange(off, off + 32) =~= h.prev_block.bytes@);
    assert(b.subrange(off + 32, off + 40) =~= u64_bytes(h.timestamp as u64));
    assert(b.subrange(off + 40, off + 44) =~= u32_bytes(h.height));
}

proof fn lemma_u32_bytes_injective(x: u32, y: u32)
    requires
        u32_bytes(x) == u32_bytes(y),
    ensures
        x == y,
{
    assert(u32_bytes(x)[0] == u32_bytes(y)[0] && u32_bytes(x)[1] == u32_bytes(y)[1]
        && u32_bytes(x)[2] == u32_bytes(y)[2] && u32_bytes(x)[3] == u32_bytes(y)[3]);
    assert(x == y) by (bit_vector)
        requires
            (x & 0xff) as u8 == (y & 0xff) as u8,
            ((x >> 8u32) & 0xff) as u8 == ((y >> 8u32) & 0xff) as u8,
            ((x >> 16u32) & 0xff) as u8 == ((y >> 16u32) & 0xff) as u8,
            ((x >> 24u32) & 0xff) as u8 == ((y >> 24u32) & 0xff) as u8,
    ;
}

proof fn lemma_u64_bytes_injective(x: u64, y: u64)
    requires
        u64_bytes(x) == u64_bytes(y),
    ensures
        x == y,
{
    let (a, b) = (u64_bytes(x), u64_bytes(y));
    assert(a[0] == b[0] && a[1] == b[1] && a[2] == b[2] && a[3] == b[3] && a[4] == b[4] && a[5]
        == b[5] && a[6] == b[6] && a[7] == b[7]);
    assert(x == y) by (bit_vector)
        requires
            (x & 0xff) as u8 == (y & 0xff) as u8,
            ((x >> 8u64) & 0xff) as u8 == ((y >> 8u64) & 0xff) as u8,
            ((x >> 16u64) & 0xff) as u8 == ((y >> 16u64) & 0xff) as u8,
            ((x >> 24u64) & 0xff) as u8 == ((y >> 24u64) & 0xff) as u8,
            ((x >> 32u64) & 0xff) as u8 == ((y >> 32u64) & 0xff) as u8,
            ((x >> 40u64) & 0xff) as u8 == ((y >> 40u64) & 0xff) as u8,
            ((x >> 48u64) & 0xff) as u8 == ((y >> 48u64) & 0xff) as u8,
            ((x >> 56u64) & 0xff) as u8 == ((y >> 56u64) & 0xff) as u8,
    ;
}

/// Distinct headers have distinct encodings.
pub proof fn lemma_encode_injective(h1: Header, h2: Header)
    ensures
        header_bytes(h1) == header_bytes(h2) ==> h1 == h2,
{
    if header_bytes(h1) == header_bytes(h2) {
        let b = header_bytes(h1);
        lemma_header_parts(h1);
        lemma_header_parts(h2);
        lemma_header_bytes_shape(h1);
        lemma_header_bytes_shape(h2);
        let off: int = if h1.data is None { 5 } else { 37 };
        lemma_u32_bytes_injective(h1.version, h2.version);
        lemma_u32_bytes_injective(h1.height, h2.height);
        lemma_u64_bytes_injective(h1.timestamp as u64, h2.timestamp as u64);
        lemma_i64_u64_round_trip(h1.timestamp);
        lemma_i64_u64_round_trip(h2.timestamp);
        assert(h1.prev_block.bytes =~= h2.prev_block.bytes);
        if h1.data is Some {
            let (d1, d2) = (h1.data->0, h2.data->0);
            assert(d1.bytes@ =~= data_bytes(h1.data).subrange(1, 33));
            assert(d2.bytes@ =~= data_bytes(h2.data).subrange(1, 33));
            assert(d1.bytes =~= d2.bytes);
        }
    }
}

/// Decoding undoes encoding: every header decodes back from its own bytes.
pub proof fn lemma_decode_encode(h: Header)
    ensures
        decoded(header_bytes(h)) == Some(h),
{
    let g = choose|g: Header| header_bytes(g) == header_bytes(h);
    lemma_encode_injective(h, g);
}

} // verus!
