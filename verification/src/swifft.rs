//! SWIFFT-backed commitments to byte strings.
//!
//! A message is cut into `BLOCK_LEN`-byte blocks, the last one filled up with zeros,
//! and the blocks are absorbed one after another into a `STATE_LEN`-byte chaining
//! state, starting from the all-zero state. Absorbing a block is one call of the SWIFFT
//! compression function under the scheme's key; the caller hands that function in as
//! `compress`, which maps a key, a chaining state and a block to the next chaining state.
use vstd::prelude::*;

use ark_serialize::{CanonicalSerialize, SerializationError};

use crate::blocks::{block_count, message_blocks, padded_block};
use crate::chain::{chains_to, initial_state, is_total, Compression};
use crate::error::CommitmentError;
use crate::traits::CommitmentScheme;

verus! {

broadcast use vstd::array::group_array_axioms;

/// Length in bytes of a SWIFFT chaining state, which is also the commitment length.
pub const STATE_LEN: usize = 72;

/// Length in bytes of one SWIFFT input block.
pub const BLOCK_LEN: usize = 56;

/// Length in bytes of a SWIFFT key.
pub const KEY_LEN: usize = 1024;

/// SWIFFT-backed commitment digest: the chaining state after the last block.
#[derive(Clone, Debug, PartialEq, Eq)]
pub struct SwifftCommitment {
    state: [u8; STATE_LEN],
}

impl SwifftCommitment {
    /// The chaining state this commitment holds.
    pub closed spec fn digest(&self) -> [u8; STATE_LEN] {
        self.state
    }

    pub fn as_bytes(&self) -> (bytes: &[u8; STATE_LEN])
        ensures
            *bytes == self.digest(),
    {
        &self.state
    }

    pub fn into_inner(self) -> (state: [u8; STATE_LEN])
        ensures
            state == self.digest(),
    {
        self.state
    }
}

impl AsRef<[u8]> for SwifftCommitment {
    fn as_ref(&self) -> (bytes: &[u8])
        ensures
            bytes@ == self.digest()@,
    {
        self.state.as_slice()
    }
}

/// Reusable buffers for SWIFFT commitments to avoid per-call allocations.
#[derive(Clone, Debug)]
pub struct SwifftCommitmentBuffer {
    state: [u8; STATE_LEN],
    block: [u8; BLOCK_LEN],
}

impl SwifftCommitmentBuffer {
    /// The chaining state the buffer holds.
    pub closed spec fn chaining_state(&self) -> [u8; STATE_LEN] {
        self.state
    }

    /// The block the buffer holds.
    pub closed spec fn block_bytes(&self) -> [u8; BLOCK_LEN] {
        self.block
    }
}

impl Default for SwifftCommitmentBuffer {
    fn default() -> (buffer: Self)
        ensures
            buffer.chaining_state()@ == initial_state(),
            buffer.block_bytes()@ == Seq::new(BLOCK_LEN as nat, |i: int| 0u8),
    {
        let buffer = SwifftCommitmentBuffer { state: [0u8; STATE_LEN], block: [0u8; BLOCK_LEN] };
        assert(buffer.state@ =~= initial_state());
        assert(buffer.block@ =~= Seq::new(BLOCK_LEN as nat, |i: int| 0u8));
        buffer
    }
}

/// Fills a fresh key with bytes from `rng`.
///
/// Calls `rand::RngCore::try_fill_bytes`, the generator's method that reports failure
/// instead of panicking, and hands back its error. Nothing is stated of the bytes or of
/// when the generator fails: both are up to the generator.
#[verifier::external_body]
fn random_key_bytes<R: rand::Rng + ?Sized>(rng: &mut R) -> Result<[u8; KEY_LEN], rand::Error> {
    let mut key_bytes = [0u8; KEY_LEN];
    rng.try_fill_bytes(&mut key_bytes)?;
    Ok(key_bytes)
}

/// Appends the compressed serialization of `item` to `buf`.
///
/// Calls `ark_serialize::CanonicalSerialize::serialize_compressed` with `buf` as the
/// writer. What bytes are written, and whether an error comes back, is up to the
/// implementation of `CanonicalSerialize` for `S`, so nothing is stated of either.
#[verifier::external_body]
pub(crate) fn serialize_compressed_into<S: CanonicalSerialize>(item: &S, buf: &mut Vec<u8>) -> Result<
    (),
    SerializationError,
> {
    item.serialize_compressed(&mut *buf)
}

/// Writes block `start / BLOCK_LEN` of `message` into `block`: the message bytes from
/// `start` on, zeros past the end of the message.
fn load_block(block: &mut [u8; BLOCK_LEN], message: &[u8], start: usize)
    requires
        start % BLOCK_LEN == 0,
    ensures
        final(block)@ == padded_block(message@, (start / BLOCK_LEN) as int),
{
    let len = message.len();
    let mut j: usize = 0;
    while j < BLOCK_LEN
        invariant
            j <= BLOCK_LEN,
            len == message@.len(),
            start % BLOCK_LEN == 0,
            forall|t: int|
                0 <= t < j ==> block@[t] == padded_block(message@, (start / BLOCK_LEN) as int)[t],
        decreases BLOCK_LEN - j,
    {
        let byte = if j < len && start < len - j {
            message[start + j]
        } else {
            0u8
        };
        block[j] = byte;
        j += 1;
    }
    assert(block@ =~= padded_block(message@, (start / BLOCK_LEN) as int));
}

/// SWIFFT compression wrapper to align with the commitment interface.
#[derive(Clone, Debug)]
pub struct SwifftCommitmentScheme {
    key: [u8; KEY_LEN],
}

impl SwifftCommitmentScheme {
    /// The key of the scheme.
    pub closed spec fn spec_key(&self) -> [u8; KEY_LEN] {
        self.key
    }

    pub fn new(key: [u8; KEY_LEN]) -> (scheme: Self)
        ensures
            scheme.spec_key() == key,
    {
        Self { key }
    }

    /// Sample a random SWIFFT key (1024 bytes); a failure of the generator is reported
    /// as `CommitmentError::KeySampling`.
    pub fn rand<R: rand::Rng + ?Sized>(rng: &mut R) -> (result: Result<Self, CommitmentError>)
        ensures
            result matches Err(e) ==> e is KeySampling,
    {
        match random_key_bytes(rng) {
            Ok(key) => Ok(Self::new(key)),
            Err(e) => Err(CommitmentError::KeySampling(e)),
        }
    }

    pub fn key(&self) -> (key: &[u8; KEY_LEN])
        ensures
            *key == self.spec_key(),
    {
        &self.key
    }

    /// Compress arbitrary bytes using a reusable buffer.
    ///
    /// The buffer's earlier content does not matter: its state is reset before the
    /// first block and after the last one.
    pub fn commit_bytes_with_buffer<F: Compression>(
        &self,
        message: &[u8],
        buffer: &mut SwifftCommitmentBuffer,
        compress: F,
    ) -> (commitment: SwifftCommitment)
        requires
            is_total(compress),
        ensures
            chains_to(
                compress,
                self.spec_key(),
                initial_state(),
                message_blocks(message@),
                commitment.digest(),
            ),
            final(buffer).chaining_state()@ == initial_state(),
            message@.len() > 0 ==> final(buffer).block_bytes()@ == message_blocks(message@).last(),
            message@.len() == 0 ==> final(buffer).block_bytes() == old(buffer).block_bytes(),
    {
        buffer.state = [0u8; STATE_LEN];
        assert(buffer.state@ =~= initial_state());
        let len = message.len();
        let count = if len % BLOCK_LEN == 0 {
            len / BLOCK_LEN
        } else {
            len / BLOCK_LEN + 1
        };
        assert(count == block_count(len as nat));
        let ghost blocks = message_blocks(message@);
        assert(blocks.take(0) =~= Seq::<Seq<u8>>::empty());
        let mut i: usize = 0;
        while i < count
            invariant
                i <= count,
                len == message@.len(),
                count == block_count(len as nat),
                blocks == message_blocks(message@),
                is_total(compress),
                chains_to(compress, self.key, initial_state(), blocks.take(i as int), buffer.state),
                i > 0 ==> buffer.block@ == blocks[i - 1],
                i == 0 ==> buffer.block == old(buffer).block,
            decreases count - i,
        {
            let start = i * BLOCK_LEN;
            load_block(&mut buffer.block, message, start);
            assert((start / BLOCK_LEN) as int == i);
            let prev = buffer.state;
            let next = compress(&self.key, &buffer.state, &buffer.block);
            proof {
                let taken = blocks.take(i + 1);
                assert(taken.drop_last() =~= blocks.take(i as int));
                assert(taken.last() == blocks[i as int]);
                assert(call_ensures(compress, (&self.key, &prev, &buffer.block), next));
            }
            buffer.state = next;
            i += 1;
        }
        assert(blocks.take(count as int) =~= blocks);
        let state = buffer.state;
        buffer.state = [0u8; STATE_LEN];
        assert(buffer.state@ =~= initial_state());
        SwifftCommitment { state }
    }

    /// Compress arbitrary bytes by chunking into 56-byte SWIFFT blocks.
    /// Currently pads the final block with zeros.
    pub fn commit_bytes<F: Compression>(
        &self,
        message: &[u8],
        compress: F,
    ) -> (commitment: SwifftCommitment)
        requires
            is_total(compress),
        ensures
            chains_to(
                compress,
                self.spec_key(),
                initial_state(),
                message_blocks(message@),
                commitment.digest(),
            ),
    {
        let mut buffer = SwifftCommitmentBuffer::default();
        self.commit_bytes_with_buffer(message, &mut buffer, compress)
    }

    /// Commit to an object that implements `CanonicalSerialize` by serializing it.
    pub fn commit_serialized<S: CanonicalSerialize, F: Compression>(
        &self,
        serializable: &S,
        compress: F,
    ) -> (result: Result<SwifftCommitment, CommitmentError>)
        requires
            is_total(compress),
        ensures
            result matches Err(e) ==> e is Serialization,
            result matches Ok(c) ==> exists|bytes: Seq<u8>|
                chains_to(
                    compress,
                    self.spec_key(),
                    initial_state(),
                    #[trigger] message_blocks(bytes),
                    c.digest(),
                ),
    {
        let mut buf: Vec<u8> = Vec::new();
        let mut buffer = SwifftCommitmentBuffer::default();
        self.commit_serialized_with_buffer(serializable, &mut buf, &mut buffer, compress)
    }

    /// Commit to a serializable value using reusable buffers.
    ///
    /// `buf` is cleared and then holds the serialization; the commitment is the one to
    /// exactly those bytes.
    pub fn commit_serialized_with_buffer<S: CanonicalSerialize, F: Compression>(
        &self,
        serializable: &S,
        buf: &mut Vec<u8>,
        buffer: &mut SwifftCommitmentBuffer,
        compress: F,
    ) -> (result: Result<SwifftCommitment, CommitmentError>)
        requires
            is_total(compress),
        ensures
            result matches Err(e) ==> e is Serialization && *final(buffer) == *old(buffer),
            result matches Ok(c) ==> {
                &&& chains_to(
                    compress,
                    self.spec_key(),
                    initial_state(),
                    message_blocks(final(buf)@),
                    c.digest(),
                )
                &&& final(buffer).chaining_state()@ == initial_state()
            },
    {
        buf.clear();
        match serialize_compressed_into(serializable, buf) {
            Ok(()) => Ok(self.commit_bytes_with_buffer(buf.as_slice(), buffer, compress)),
            Err(e) => Err(CommitmentError::Serialization(e)),
        }
    }

    /// Convenience helper to commit to a slice of serializable items.
    pub fn commit_serialized_slice<S: CanonicalSerialize, F: Compression>(
        &self,
        slice: &[S],
        compress: F,
    ) -> (result: Result<SwifftCommitment, CommitmentError>)
        requires
            is_total(compress),
        ensures
            result matches Err(e) ==> e is Serialization,
            result matches Ok(c) ==> exists|bytes: Seq<u8>|
                chains_to(
                    compress,
                    self.spec_key(),
                    initial_state(),
                    #[trigger] message_blocks(bytes),
                    c.digest(),
                ),
            slice@.len() == 0 ==> (result matches Ok(c) && c.digest()@ == initial_state()),
    {
        let mut buf: Vec<u8> = Vec::new();
        let mut buffer = SwifftCommitmentBuffer::default();
        self.commit_serialized_slice_with_buffer(slice, &mut buf, &mut buffer, compress)
    }

    /// Convenience helper to commit to a slice of serializable items using reusable buffers.
    ///
    /// `buf` is cleared and then holds the items' serializations, one after another;
    /// the commitment is the one to exactly those bytes.
    pub fn commit_serialized_slice_with_buffer<S: CanonicalSerialize, F: Compression>(
        &self,
        slice: &[S],
        buf: &mut Vec<u8>,
        buffer: &mut SwifftCommitmentBuffer,
        compress: F,
    ) -> (result: Result<SwifftCommitment, CommitmentError>)
        requires
            is_total(compress),
        ensures
            result matches Err(e) ==> e is Serialization && *final(buffer) == *old(buffer),
            result matches Ok(c) ==> {
                &&& chains_to(
                    compress,
                    self.spec_key(),
                    initial_state(),
                    message_blocks(final(buf)@),
                    c.digest(),
                )
                &&& final(buffer).chaining_state()@ == initial_state()
            },
            slice@.len() == 0 ==> result is Ok && final(buf)@.len() == 0,
    {
        buf.clear();
        let n = slice.len();
        let mut i: usize = 0;
        while i < n
            invariant
                i <= n,
                n == slice@.len(),
                n == 0 ==> buf@.len() == 0,
            decreases n - i,
        {
            match serialize_compressed_into(&slice[i], buf) {
                Ok(()) => {},
                Err(e) => {
                    return Err(CommitmentError::Serialization(e));
                },
            }
            i += 1;
        }
        Ok(self.commit_bytes_with_buffer(buf.as_slice(), buffer, compress))
    }
}

/// A SWIFFT commitment scheme together with the compression function it commits with,
/// behind the backend-agnostic `CommitmentScheme` interface.
pub struct SwifftBackend<F: Compression> {
    scheme: SwifftCommitmentScheme,
    compress: F,
}

#[verifier::type_invariant]
spec fn backend_compress_is_total<F: Compression>(
    backend: SwifftBackend<F>,
) -> bool {
    is_total(backend.compress)
}

impl<F: Compression> SwifftBackend<F> {
    /// The scheme whose key commitments are made under.
    pub closed spec fn spec_scheme(&self) -> SwifftCommitmentScheme {
        self.scheme
    }

    /// The compression function commitments are made with.
    pub closed spec fn spec_compress(&self) -> F {
        self.compress
    }

    pub fn new(scheme: SwifftCommitmentScheme, compress: F) -> (backend: Self)
        requires
            is_total(compress),
        ensures
            backend.spec_scheme() == scheme,
            backend.spec_compress() == compress,
    {
        SwifftBackend { scheme, compress }
    }

    pub fn scheme(&self) -> (scheme: &SwifftCommitmentScheme)
        ensures
            *scheme == self.spec_scheme(),
    {
        &self.scheme
    }
}

impl<F: Compression + Copy> CommitmentScheme for SwifftBackend<F> {
    type Witness = [u8];

    type Commitment = SwifftCommitment;

    fn kappa(&self) -> (kappa: usize)
        ensures
            kappa == STATE_LEN,
    {
        STATE_LEN
    }

    fn width(&self) -> (width: usize)
        ensures
            width == BLOCK_LEN,
    {
        BLOCK_LEN
    }

    fn commit(&self, witness: &[u8]) -> (result: Result<SwifftCommitment, CommitmentError>)
        ensures
            result is Ok,
            result matches Ok(c) ==> chains_to(
                self.spec_compress(),
                self.spec_scheme().spec_key(),
                initial_state(),
                message_blocks(witness@),
                c.digest(),
            ),
    {
        proof {
            use_type_invariant(self);
        }
        Ok(self.scheme.commit_bytes(witness, self.compress))
    }
}

} // verus!
