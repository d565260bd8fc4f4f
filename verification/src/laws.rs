//! Properties of SWIFFT commitments that hold across calls.
use vstd::prelude::*;

use crate::blocks::{block_count, lemma_blocks_append, lemma_zero_padding_invisible, message_blocks};
use crate::chain::{
    chains_to, initial_state, is_deterministic, lemma_chain_append, lemma_chain_unique, Compression,
};
use crate::swifft::{BLOCK_LEN, KEY_LEN, STATE_LEN};

verus! {

/// With a deterministic compression function, a commitment is a function of the key and
/// the message alone: two commitments to one message under one key are equal, whatever
/// buffer either was computed with.
pub proof fn law_commitment_determined_by_key_and_message<F: Compression>(
    compress: F,
    key: [u8; KEY_LEN],
    message: Seq<u8>,
    first: [u8; STATE_LEN],
    second: [u8; STATE_LEN],
)
    requires
        is_deterministic(compress),
        chains_to(compress, key, initial_state(), message_blocks(message), first),
        chains_to(compress, key, initial_state(), message_blocks(message), second),
    ensures
        first == second,
{
    lemma_chain_unique(compress, key, initial_state(), message_blocks(message), first, second);
}

/// The commitment to the empty message is the initial, all-zero state: nothing is
/// compressed.
pub proof fn law_empty_message_commits_to_initial_state<F: Compression>(
    compress: F,
    key: [u8; KEY_LEN],
    digest: [u8; STATE_LEN],
)
    requires
        chains_to(compress, key, initial_state(), message_blocks(Seq::empty()), digest),
    ensures
        digest@ == initial_state(),
{
}

/// The final block is filled up with zeros, so a message and the same message followed
/// by zero bytes that do not start a new block have the same commitments.
pub proof fn law_trailing_zeros_within_last_block<F: Compression>(
    compress: F,
    key: [u8; KEY_LEN],
    message: Seq<u8>,
    zeros: Seq<u8>,
    digest: [u8; STATE_LEN],
)
    requires
        forall|i: int| 0 <= i < zeros.len() ==> zeros[i] == 0u8,
        block_count((message + zeros).len()) == block_count(message.len()),
        chains_to(compress, key, initial_state(), message_blocks(message), digest),
    ensures
        chains_to(compress, key, initial_state(), message_blocks(message + zeros), digest),
{
    lemma_zero_padding_invisible(message, zeros);
}

/// Committing to `prefix + rest`, where `prefix` fills whole blocks, is committing to
/// `prefix` and then absorbing the blocks of `rest` into that commitment.
pub proof fn law_block_aligned_prefix_chains<F: Compression>(
    compress: F,
    key: [u8; KEY_LEN],
    prefix: Seq<u8>,
    rest: Seq<u8>,
    prefix_digest: [u8; STATE_LEN],
    digest: [u8; STATE_LEN],
)
    requires
        prefix.len() % (BLOCK_LEN as nat) == 0,
        chains_to(compress, key, initial_state(), message_blocks(prefix), prefix_digest),
        chains_to(compress, key, prefix_digest@, message_blocks(rest), digest),
    ensures
        chains_to(compress, key, initial_state(), message_blocks(prefix + rest), digest),
{
    lemma_blocks_append(prefix, rest);
    lemma_chain_append(
        compress,
        key,
        initial_state(),
        message_blocks(prefix),
        message_blocks(rest),
        prefix_digest,
        digest,
    );
}

} // verus!
