use std::cell::{Cell, RefCell};

use ark_serialize::{CanonicalSerialize, Compress, SerializationError, Write};
use latticefold::digest::CommitmentDigest;
use latticefold::error::CommitmentError;
use latticefold::swifft::{
    SwifftBackend, SwifftCommitmentBuffer, SwifftCommitmentScheme, BLOCK_LEN, KEY_LEN, STATE_LEN,
};
use latticefold::traits::CommitmentScheme;
use rand::rngs::StdRng;
use rand::{RngCore, SeedableRng};
use std::num::NonZeroU32;

/// A stand-in compression function for exercising the chunking and chaining logic.
fn mix(key: &[u8; KEY_LEN], state: &[u8; STATE_LEN], block: &[u8; BLOCK_LEN]) -> [u8; STATE_LEN] {
    let mut out = [0u8; STATE_LEN];
    for i in 0..STATE_LEN {
        let s = state[(i + 1) % STATE_LEN];
        let b = block[i % BLOCK_LEN];
        let k = key[(i * 13) % KEY_LEN];
        out[i] = s.wrapping_mul(31).wrapping_add(b).rotate_left(3) ^ k ^ (i as u8);
    }
    out
}

fn padded(bytes: &[u8]) -> [u8; BLOCK_LEN] {
    let mut block = [0u8; BLOCK_LEN];
    block[..bytes.len()].copy_from_slice(bytes);
    block
}

#[derive(Debug)]
struct Unserializable;

impl CanonicalSerialize for Unserializable {
    fn serialize_with_mode<W: Write>(
        &self,
        _writer: W,
        _compress: Compress,
    ) -> Result<(), SerializationError> {
        Err(SerializationError::InvalidData)
    }

    fn serialized_size(&self, _compress: Compress) -> usize {
        0
    }
}

#[test]
fn commit_bytes_with_buffer_matches_default() {
    let scheme = SwifftCommitmentScheme::new([7u8; KEY_LEN]);
    let message = b"swifft buffer test message";
    let mut buffer = SwifftCommitmentBuffer::default();

    let from_default = scheme.commit_bytes(message, mix);
    let from_buffer = scheme.commit_bytes_with_buffer(message, &mut buffer, mix);

    assert_eq!(from_default.as_bytes(), from_buffer.as_bytes());
}

#[test]
fn reused_buffer_gives_same_commitment() {
    let scheme = SwifftCommitmentScheme::new([7u8; KEY_LEN]);
    let mut buffer = SwifftCommitmentBuffer::default();
    let other = vec![0xabu8; 130];
    let _ = scheme.commit_bytes_with_buffer(&other, &mut buffer, mix);
    let message = b"swifft buffer test message";
    let reused = scheme.commit_bytes_with_buffer(message, &mut buffer, mix);
    assert_eq!(reused, scheme.commit_bytes(message, mix));
}

#[test]
fn empty_message_commits_to_zero_state() {
    let scheme = SwifftCommitmentScheme::new([7u8; KEY_LEN]);
    let calls = Cell::new(0usize);
    let commitment = scheme.commit_bytes(&[], |k: &[u8; KEY_LEN], s: &[u8; STATE_LEN], b: &[u8; BLOCK_LEN]| {
        calls.set(calls.get() + 1);
        mix(k, s, b)
    });
    assert_eq!(commitment.as_bytes(), &[0u8; STATE_LEN]);
    assert_eq!(calls.get(), 0);
}

#[test]
fn one_compression_per_started_block() {
    let scheme = SwifftCommitmentScheme::new([3u8; KEY_LEN]);
    for (len, expected) in [(1usize, 1usize), (55, 1), (56, 1), (57, 2), (112, 2), (113, 3), (1024, 19)] {
        let message = vec![1u8; len];
        let calls = Cell::new(0usize);
        let _ = scheme.commit_bytes(&message, |k: &[u8; KEY_LEN], s: &[u8; STATE_LEN], b: &[u8; BLOCK_LEN]| {
            calls.set(calls.get() + 1);
            mix(k, s, b)
        });
        assert_eq!(calls.get(), expected, "message length {}", len);
    }
}

#[test]
fn blocks_are_message_bytes_then_zeros() {
    let scheme = SwifftCommitmentScheme::new([9u8; KEY_LEN]);
    let message: Vec<u8> = (1..=60).collect();
    let seen: RefCell<Vec<[u8; BLOCK_LEN]>> = RefCell::new(Vec::new());
    let keys_ok = Cell::new(true);
    let _ = scheme.commit_bytes(&message, |k: &[u8; KEY_LEN], s: &[u8; STATE_LEN], b: &[u8; BLOCK_LEN]| {
        seen.borrow_mut().push(*b);
        keys_ok.set(keys_ok.get() && k == &[9u8; KEY_LEN]);
        mix(k, s, b)
    });
    let seen = seen.into_inner();
    assert_eq!(seen.len(), 2);
    assert_eq!(seen[0][..], message[..56]);
    assert_eq!(seen[1], padded(&[57, 58, 59, 60]));
    assert!(keys_ok.get());
}

#[test]
fn commitment_chains_blocks_from_zero_state() {
    let key = [5u8; KEY_LEN];
    let scheme = SwifftCommitmentScheme::new(key);
    let message: Vec<u8> = (0..76).map(|i| (i * 7) as u8).collect();
    let first = mix(&key, &[0u8; STATE_LEN], &padded(&message[..56]));
    let second = mix(&key, &first, &padded(&message[56..]));
    assert_eq!(scheme.commit_bytes(&message, mix).into_inner(), second);
}

#[test]
fn trailing_zeros_within_last_block_collide() {
    let scheme = SwifftCommitmentScheme::new([7u8; KEY_LEN]);
    let message = b"ten bytes!".to_vec();
    let base = scheme.commit_bytes(&message, mix);
    let mut longer = message.clone();
    longer.extend_from_slice(&[0u8; 46]);
    assert_eq!(longer.len(), 56);
    assert_eq!(scheme.commit_bytes(&longer, mix), base);
    longer.push(0);
    assert_ne!(scheme.commit_bytes(&longer, mix), base);
}

#[test]
fn block_aligned_prefix_then_rest() {
    let key = [11u8; KEY_LEN];
    let scheme = SwifftCommitmentScheme::new(key);
    let prefix = vec![0x42u8; 112];
    let rest = b"tail".to_vec();
    let prefix_digest = scheme.commit_bytes(&prefix, mix).into_inner();
    let continued = mix(&key, &prefix_digest, &padded(&rest));
    let mut whole = prefix.clone();
    whole.extend_from_slice(&rest);
    assert_eq!(scheme.commit_bytes(&whole, mix).into_inner(), continued);
}

#[test]
fn key_is_kept_and_used() {
    let scheme = SwifftCommitmentScheme::new([7u8; KEY_LEN]);
    assert_eq!(scheme.key(), &[7u8; KEY_LEN]);
    let other = SwifftCommitmentScheme::new([8u8; KEY_LEN]);
    let message = b"same message";
    assert_ne!(scheme.commit_bytes(message, mix), other.commit_bytes(message, mix));
}

#[test]
fn rand_scheme_follows_the_generator() {
    let a = SwifftCommitmentScheme::rand(&mut StdRng::seed_from_u64(42)).unwrap();
    let b = SwifftCommitmentScheme::rand(&mut StdRng::seed_from_u64(42)).unwrap();
    let c = SwifftCommitmentScheme::rand(&mut StdRng::seed_from_u64(43)).unwrap();
    assert_eq!(a.key(), b.key());
    assert_ne!(a.key(), c.key());
}

/// A generator that always fails.
struct BrokenRng;

impl RngCore for BrokenRng {
    fn next_u32(&mut self) -> u32 {
        0
    }

    fn next_u64(&mut self) -> u64 {
        0
    }

    fn fill_bytes(&mut self, _dest: &mut [u8]) {
        panic!("fill_bytes must not be called");
    }

    fn try_fill_bytes(&mut self, _dest: &mut [u8]) -> Result<(), rand::Error> {
        Err(rand::Error::from(NonZeroU32::new(rand::Error::CUSTOM_START + 1).unwrap()))
    }
}

#[test]
fn rand_reports_generator_failure() {
    match SwifftCommitmentScheme::rand(&mut BrokenRng) {
        Err(CommitmentError::KeySampling(e)) => {
            assert_eq!(e.code(), NonZeroU32::new(rand::Error::CUSTOM_START + 1));
        }
        Err(other) => panic!("unexpected error: {:?}", other),
        Ok(_) => panic!("a failing generator must not give a scheme"),
    }
}

#[test]
fn commitment_views_agree() {
    let scheme = SwifftCommitmentScheme::new([1u8; KEY_LEN]);
    let commitment = scheme.commit_bytes(b"views", mix);
    let bytes = *commitment.as_bytes();
    assert_eq!(commitment.as_ref(), &bytes[..]);
    assert_eq!(commitment.clone().into_inner(), bytes);
    assert_eq!(bytes.len(), STATE_LEN);
}

#[test]
fn commit_serialized_commits_to_serialization() {
    let scheme = SwifftCommitmentScheme::new([2u8; KEY_LEN]);
    let value: u64 = 0x0102_0304_0506_0708;
    let committed = scheme.commit_serialized(&value, mix).unwrap();
    assert_eq!(committed, scheme.commit_bytes(&value.to_le_bytes(), mix));

    let mut buf = vec![9u8; 3];
    let mut buffer = SwifftCommitmentBuffer::default();
    let with_buffer = scheme
        .commit_serialized_with_buffer(&value, &mut buf, &mut buffer, mix)
        .unwrap();
    assert_eq!(buf, value.to_le_bytes().to_vec());
    assert_eq!(with_buffer, committed);
}

#[test]
fn commit_serialized_slice_concatenates_items() {
    let scheme = SwifftCommitmentScheme::new([4u8; KEY_LEN]);
    let items: [u64; 3] = [1, 2, u64::MAX];
    let mut expected = Vec::new();
    for item in items.iter() {
        expected.extend_from_slice(&item.to_le_bytes());
    }
    let committed = scheme.commit_serialized_slice(&items, mix).unwrap();
    assert_eq!(committed, scheme.commit_bytes(&expected, mix));

    let mut buf = vec![1u8, 2, 3];
    let mut buffer = SwifftCommitmentBuffer::default();
    let with_buffer = scheme
        .commit_serialized_slice_with_buffer(&items, &mut buf, &mut buffer, mix)
        .unwrap();
    assert_eq!(buf, expected);
    assert_eq!(with_buffer, committed);
}

#[test]
fn commit_serialized_empty_slice_is_zero_state() {
    let scheme = SwifftCommitmentScheme::new([4u8; KEY_LEN]);
    let items: [u64; 0] = [];
    let committed = scheme.commit_serialized_slice(&items, mix).unwrap();
    assert_eq!(committed.as_bytes(), &[0u8; STATE_LEN]);
}

#[test]
fn serialization_failure_is_reported() {
    let scheme = SwifftCommitmentScheme::new([4u8; KEY_LEN]);
    match scheme.commit_serialized(&Unserializable, mix) {
        Err(CommitmentError::Serialization(SerializationError::InvalidData)) => {}
        other => panic!("unexpected result: {:?}", other),
    }
    let items = [Unserializable, Unserializable];
    match scheme.commit_serialized_slice(&items, mix) {
        Err(CommitmentError::Serialization(_)) => {}
        other => panic!("unexpected result: {:?}", other),
    }
}

#[test]
fn backend_reports_sizes_and_commits_bytes() {
    let scheme = SwifftCommitmentScheme::new([6u8; KEY_LEN]);
    let expected = scheme.commit_bytes(b"backend witness", mix);
    let backend = SwifftBackend::new(scheme, mix);
    assert_eq!(backend.kappa(), 72);
    assert_eq!(backend.width(), 56);
    assert_eq!(backend.commit(b"backend witness").unwrap(), expected);
    assert_eq!(backend.scheme().key(), &[6u8; KEY_LEN]);
}

#[test]
fn error_variants_keep_their_fields() {
    match CommitmentError::WrongWitnessLength(3, 4) {
        CommitmentError::WrongWitnessLength(found, expected) => assert_eq!((found, expected), (3, 4)),
        other => panic!("unexpected variant: {:?}", other),
    }
    match CommitmentError::WrongAjtaiMatrixDimensions(1, 2, 3, 4) {
        CommitmentError::WrongAjtaiMatrixDimensions(a, b, c, d) => assert_eq!((a, b, c, d), (1, 2, 3, 4)),
        other => panic!("unexpected variant: {:?}", other),
    }
}

#[test]
fn swifft_digest_bytes_are_state_bytes() {
    let scheme = SwifftCommitmentScheme::new([7u8; KEY_LEN]);
    let commitment = scheme.commit_bytes(b"digest", mix);
    let digest: CommitmentDigest<u64> = CommitmentDigest::Swifft(commitment.clone());
    assert_eq!(digest.to_bytes().unwrap(), commitment.as_bytes().to_vec());
}

#[test]
fn ajtai_digest_bytes_are_serialization() {
    let digest: CommitmentDigest<u64> = CommitmentDigest::Ajtai(0x1122_3344_5566_7788);
    assert_eq!(digest.to_bytes().unwrap(), 0x1122_3344_5566_7788u64.to_le_bytes().to_vec());
    let failing: CommitmentDigest<Unserializable> = CommitmentDigest::Ajtai(Unserializable);
    match failing.to_bytes() {
        Err(CommitmentError::Serialization(SerializationError::InvalidData)) => {}
        other => panic!("unexpected result: {:?}", other),
    }
}
