//! How a message is cut into SWIFFT input blocks.
use vstd::prelude::*;

use crate::swifft::BLOCK_LEN;

verus! {

/// Number of blocks a message of `len` bytes is cut into: `len / BLOCK_LEN`, rounded up.
pub open spec fn block_count(len: nat) -> nat {
    ((len + BLOCK_LEN - 1) / (BLOCK_LEN as int)) as nat
}

/// Block `i` of message `m`: bytes `i * BLOCK_LEN ..` of the message, with zeros in
/// every position that lies past the end of the message.
pub open spec fn padded_block(m: Seq<u8>, i: int) -> Seq<u8> {
    Seq::new(
        BLOCK_LEN as nat,
        |j: int|
            if i * (BLOCK_LEN as int) + j < m.len() {
                m[i * (BLOCK_LEN as int) + j]
            } else {
                0u8
            },
    )
}

/// The blocks that a commitment to `m` compresses, in order.
pub open spec fn message_blocks(m: Seq<u8>) -> Seq<Seq<u8>> {
    Seq::new(block_count(m.len()), |i: int| padded_block(m, i))
}

/// The blocks span the message exactly: they hold every byte, and the last block
/// starts before the end of the message.
pub proof fn lemma_block_count_bounds(len: nat)
    ensures
        len <= block_count(len) * BLOCK_LEN,
        block_count(len) * BLOCK_LEN < len + BLOCK_LEN,
        len == 0 <==> block_count(len) == 0,
{
}

/// No byte is lost: byte `k` of the message is byte `k % BLOCK_LEN` of block `k / BLOCK_LEN`.
pub proof fn lemma_blocks_hold_message(m: Seq<u8>, k: int)
    requires
        0 <= k < m.len(),
    ensures
        k / (BLOCK_LEN as int) < message_blocks(m).len(),
        message_blocks(m)[k / (BLOCK_LEN as int)][k % (BLOCK_LEN as int)] == m[k],
{
    lemma_block_count_bounds(m.len());
}

/// Zero padding is invisible: appending zero bytes that do not reach a new block
/// leaves the blocks unchanged.
pub proof fn lemma_zero_padding_invisible(m: Seq<u8>, zeros: Seq<u8>)
    requires
        forall|i: int| 0 <= i < zeros.len() ==> zeros[i] == 0u8,
        block_count((m + zeros).len()) == block_count(m.len()),
    ensures
        message_blocks(m + zeros) == message_blocks(m),
{
    let mz = m + zeros;
    assert forall|i: int| 0 <= i < block_count(m.len()) implies #[trigger] padded_block(mz, i)
        == padded_block(m, i) by {
        assert(padded_block(mz, i) =~= padded_block(m, i));
    }
    assert(message_blocks(mz) =~= message_blocks(m));
}

/// Cutting a block-aligned prefix and the rest separately gives the same blocks as
/// cutting their concatenation.
pub proof fn lemma_blocks_append(a: Seq<u8>, b: Seq<u8>)
    requires
        a.len() % (BLOCK_LEN as nat) == 0,
    ensures
        message_blocks(a + b) == message_blocks(a) + message_blocks(b),
{
    let ab = a + b;
    let na = block_count(a.len());
    assert(na * BLOCK_LEN == a.len());
    assert(block_count(ab.len()) == na + block_count(b.len()));
    assert forall|i: int| 0 <= i < block_count(ab.len()) implies #[trigger] padded_block(ab, i)
        == (message_blocks(a) + message_blocks(b))[i] by {
        if i < na {
            assert(padded_block(ab, i) =~= padded_block(a, i));
        } else {
            assert(padded_block(ab, i) =~= padded_block(b, i - na));
        }
    }
    assert(message_blocks(ab) =~= message_blocks(a) + message_blocks(b));
}

} // verus!
