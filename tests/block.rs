use blockcore::block::{Block, Transaction, VerificationError};
use blockcore::codec::{decode_header, encode_header, Header};
use blockcore::crypto::{PrivateKey, Signature};
use blockcore::hash::BlockHash;

fn zero_header() -> Header {
    Header {
        version: 1,
        data: None,
        prev_block: BlockHash::zero(),
        timestamp: 0,
        height: 0,
    }
}

fn sample_header() -> Header {
    Header {
        version: 7,
        data: Some(BlockHash { bytes: [0xab; 32] }),
        prev_block: BlockHash { bytes: [3; 32] },
        timestamp: -1_234_567_890,
        height: 42,
    }
}

const GOLDEN_DIGEST: [u8; 32] = [
    174, 47, 198, 128, 138, 214, 203, 183, 84, 43, 165, 120, 200, 219, 237, 197, 187, 142, 147,
    135, 27, 69, 246, 136, 2, 96, 162, 124, 99, 145, 187, 64,
];

#[test]
fn test_sign_block() {
    let key = PrivateKey::generate_key();
    let mut b = Block::random_block(0);
    assert!(b.sign(key).is_ok());
    assert!(b.signature.is_some());
}

#[test]
fn test_verify_block() {
    let key = PrivateKey::generate_key();
    let mut b = Block::random_block(0);
    assert!(b.sign(key).is_ok());
    assert!(b.verify().is_ok());

    let other_key = PrivateKey::generate_key();
    let old_validator = b.validator;
    b.validator = Some(other_key.generate_public());
    assert!(b.verify().is_err());
    b.validator = old_validator;
    b.header.height = 100;

    assert!(b.verify().is_err());
}

#[test]
fn encoding_of_zero_header_is_pinned() {
    let bytes = encode_header(&zero_header());
    let mut expected = vec![0u8; 49];
    expected[0] = 1;
    assert_eq!(bytes, expected);
    let b = Block::new(zero_header(), vec![]);
    assert_eq!(b.hash.bytes, GOLDEN_DIGEST);
    assert_eq!(b.hash.to_vec(), GOLDEN_DIGEST.to_vec());
}

#[test]
fn encoding_layout_with_data() {
    let bytes = encode_header(&sample_header());
    assert_eq!(bytes.len(), 81);
    assert_eq!(&bytes[0..4], &[7, 0, 0, 0]);
    assert_eq!(bytes[4], 1);
    assert_eq!(&bytes[5..37], &[0xab; 32]);
    assert_eq!(&bytes[37..69], &[3; 32]);
    assert_eq!(&bytes[69..77], &(-1_234_567_890i64).to_le_bytes());
    assert_eq!(&bytes[77..81], &[42, 0, 0, 0]);
}

#[test]
fn decode_round_trip() {
    for h in [zero_header(), sample_header()] {
        let bytes = encode_header(&h);
        assert_eq!(decode_header(&bytes), Ok(h));
    }
    let extreme = Header {
        version: u32::MAX,
        data: None,
        prev_block: BlockHash { bytes: [0xff; 32] },
        timestamp: i64::MIN,
        height: u32::MAX,
    };
    assert_eq!(decode_header(&encode_header(&extreme)), Ok(extreme));
}

#[test]
fn decode_rejects_malformed_bytes() {
    let bytes = encode_header(&sample_header());
    assert!(decode_header(&bytes[..80]).is_err());
    assert!(decode_header(&bytes[..3]).is_err());
    assert!(decode_header(&[]).is_err());
    let mut trailing = bytes.clone();
    trailing.push(0);
    assert!(decode_header(&trailing).is_err());
    let mut bad_tag = encode_header(&zero_header());
    bad_tag[4] = 2;
    assert!(decode_header(&bad_tag).is_err());
    let mut wrong_len_for_tag = encode_header(&zero_header());
    wrong_len_for_tag[4] = 1;
    assert!(decode_header(&wrong_len_for_tag).is_err());
}

#[test]
fn encoding_and_hash_are_deterministic() {
    assert_eq!(encode_header(&sample_header()), encode_header(&sample_header()));
    let a = Block::new(sample_header(), vec![]);
    let b = Block::new(sample_header(), vec![]);
    assert_eq!(a.hash, b.hash);
}

#[test]
fn changing_any_field_changes_hash() {
    let base = Block::new(sample_header(), vec![]).hash;
    let mut variants = Vec::new();
    let mut h = sample_header();
    h.version += 1;
    variants.push(h);
    let mut h = sample_header();
    h.data = None;
    variants.push(h);
    let mut h = sample_header();
    h.prev_block.bytes[31] ^= 1;
    variants.push(h);
    let mut h = sample_header();
    h.timestamp += 1;
    variants.push(h);
    let mut h = sample_header();
    h.height += 1;
    variants.push(h);
    for v in variants {
        assert_ne!(Block::new(v, vec![]).hash, base);
    }
}

#[test]
fn hash_is_cached_unless_zero() {
    let mut b = Block::new(sample_header(), vec![]);
    let first = b.hash();
    b.header.height = 1000;
    assert_eq!(b.hash(), first);
    b.hash = BlockHash::zero();
    let fresh = b.hash();
    assert_ne!(fresh, first);
    assert_eq!(fresh, Block::new(b.header, vec![]).hash);
}

#[test]
fn verify_without_signature_is_missing_signature() {
    let b = Block::random_block(3);
    assert_eq!(b.verify(), Err(VerificationError::MissingSignature));
}

#[test]
fn verify_with_wrong_key_is_invalid_signature() {
    let mut b = Block::new(sample_header(), vec![]);
    assert!(b.sign(PrivateKey::generate_key()).is_ok());
    b.validator = Some(PrivateKey::generate_key().generate_public());
    assert_eq!(b.verify(), Err(VerificationError::InvalidSignature));
}

#[test]
fn verify_detects_each_tampered_field() {
    let mut signed = Block::new(sample_header(), vec![]);
    assert!(signed.sign(PrivateKey::generate_key()).is_ok());
    assert_eq!(signed.verify(), Ok(()));
    let edits: Vec<fn(&mut Header)> = vec![
        |h| h.version = 8,
        |h| h.data = None,
        |h| h.prev_block = BlockHash::zero(),
        |h| h.timestamp = 0,
        |h| h.height = 43,
    ];
    for edit in edits {
        let mut b = signed.clone();
        edit(&mut b.header);
        assert_eq!(b.verify(), Err(VerificationError::InvalidSignature));
    }
}

#[test]
fn verify_detects_corrupted_signature() {
    let mut b = Block::new(zero_header(), vec![]);
    assert!(b.sign(PrivateKey::generate_key()).is_ok());
    let mut sig = b.signature.clone().unwrap();
    sig.bytes[10] ^= 0x40;
    b.signature = Some(sig);
    assert_eq!(b.verify(), Err(VerificationError::InvalidSignature));
    b.signature = Some(Signature { bytes: vec![1, 2, 3] });
    assert_eq!(b.verify(), Err(VerificationError::InvalidSignature));
}

#[test]
fn verify_without_validator_is_invalid_signature() {
    let mut b = Block::new(zero_header(), vec![]);
    assert!(b.sign(PrivateKey::generate_key()).is_ok());
    b.validator = None;
    assert_eq!(b.verify(), Err(VerificationError::InvalidSignature));
}

#[test]
fn signing_keeps_header_hash_and_transactions() {
    let tx = Transaction { data: vec![9, 9], key: None, signature: None };
    let mut b = Block::new(sample_header(), vec![tx]);
    let hash = b.hash;
    assert!(b.sign(PrivateKey::generate_key()).is_ok());
    assert_eq!(b.hash, hash);
    assert_eq!(b.header, sample_header());
    assert_eq!(b.transactions.len(), 1);
    assert_eq!(b.transactions[0].data, vec![9, 9]);
    assert_eq!(b.signature.as_ref().unwrap().bytes.len(), 64);
}

#[test]
fn key_signatures_are_deterministic_and_verify() {
    let key = PrivateKey::generate_key();
    let public = key.generate_public();
    assert_eq!(public.bytes.len(), 65);
    assert_eq!(public.bytes[0], 4);
    let s1 = key.sign(b"message").unwrap();
    let s2 = key.sign(b"message").unwrap();
    assert_eq!(s1.bytes, s2.bytes);
    assert_eq!(s1.bytes.len(), 64);
    assert!(public.verify(b"message", &s1));
    assert!(!public.verify(b"messagf", &s1));
    let other = key.sign(b"other").unwrap();
    assert_ne!(other.bytes, s1.bytes);
}

#[test]
fn random_block_fixture() {
    let b = Block::random_block(5);
    assert_eq!(b.header.version, 1);
    assert_eq!(b.header.data, None);
    assert_eq!(b.header.height, 5);
    assert!(b.header.timestamp > 1_600_000_000);
    assert!(!b.header.prev_block.is_zero());
    assert_eq!(b.transactions.len(), 1);
    assert_eq!(b.transactions[0].data, b"foo".to_vec());
    assert_eq!(b.hash, Block::new(b.header, vec![]).hash);
    assert!(b.signature.is_none());
}

#[test]
fn random_block_with_signature_verifies() {
    let b = Block::random_block_with_signature(9).unwrap();
    assert_eq!(b.header.height, 9);
    assert_eq!(b.verify(), Ok(()));
}

#[test]
fn header_data_matches_encoding() {
    let b = Block::new(sample_header(), vec![]);
    assert_eq!(b.header_data(), encode_header(&sample_header()));
}

#[test]
fn hash_from_bytes_checks_length() {
    assert!(BlockHash::from_bytes(&[1; 31]).is_err());
    assert!(BlockHash::from_bytes(&[1; 33]).is_err());
    let h = BlockHash::from_bytes(&[1; 32]).unwrap();
    assert_eq!(h.bytes, [1; 32]);
    assert!(!h.is_zero());
    assert!(BlockHash::zero().is_zero());
    assert_ne!(BlockHash::random(), BlockHash::random());
}

#[test]
fn fixture_block_has_exact_header() {
    let prev = BlockHash { bytes: [7; 32] };
    let b = Block::fixture_block(11, prev, 1_700_000_000);
    assert_eq!(
        b.header,
        Header { version: 1, data: None, prev_block: prev, timestamp: 1_700_000_000, height: 11 }
    );
    assert_eq!(b.transactions.len(), 1);
    assert_eq!(b.transactions[0].data, b"foo".to_vec());
    assert!(b.transactions[0].key.is_none());
    assert!(b.transactions[0].signature.is_none());
    assert!(b.signature.is_none());
    assert!(b.validator.is_none());
    assert_eq!(b.hash, Block::new(b.header, vec![]).hash);
}

#[test]
fn signed_fixture_block_verifies_under_its_key() {
    let key = PrivateKey::generate_key();
    let public = key.generate_public();
    let prev = BlockHash { bytes: [9; 32] };
    let b = Block::signed_fixture_block(2, prev, 123, key).unwrap();
    assert_eq!(b.header.prev_block, prev);
    assert_eq!(b.header.timestamp, 123);
    assert_eq!(b.header.height, 2);
    assert_eq!(b.validator.as_ref().unwrap().bytes, public.bytes);
    assert_eq!(b.verify(), Ok(()));
}
