//! Iterating a compression function over a sequence of blocks.
use vstd::prelude::*;

use crate::swifft::{BLOCK_LEN, KEY_LEN, STATE_LEN};

verus! {

broadcast use vstd::array::group_array_axioms;

/// The shape of a SWIFFT compression function: it maps a key, a chaining state and a
/// block to the next chaining state.
pub trait Compression: Fn(&[u8; KEY_LEN], &[u8; STATE_LEN], &[u8; BLOCK_LEN]) -> [u8; STATE_LEN] {

}

impl<T: Fn(&[u8; KEY_LEN], &[u8; STATE_LEN], &[u8; BLOCK_LEN]) -> [u8; STATE_LEN]> Compression for T {

}

/// The chaining state a commitment starts from: all zero bytes.
pub open spec fn initial_state() -> Seq<u8> {
    Seq::new(STATE_LEN as nat, |i: int| 0u8)
}

/// `last` is a state that `compress`, keyed by `key`, can reach from a state whose bytes
/// are `init` by absorbing `blocks` one after another, in order.
pub open spec fn chains_to<F: Compression>(
    compress: F,
    key: [u8; KEY_LEN],
    init: Seq<u8>,
    blocks: Seq<Seq<u8>>,
    last: [u8; STATE_LEN],
) -> bool
    decreases blocks.len(),
{
    if blocks.len() == 0 {
        last@ == init
    } else {
        exists|prev: [u8; STATE_LEN], block: [u8; BLOCK_LEN]|
            #[trigger] call_ensures(compress, (&key, &prev, &block), last) && block@
                == blocks.last() && chains_to(compress, key, init, blocks.drop_last(), prev)
    }
}

/// `compress` may be called on every key, state and block.
pub open spec fn is_total<F: Compression>(
    compress: F,
) -> bool {
    forall|k: &[u8; KEY_LEN], s: &[u8; STATE_LEN], b: &[u8; BLOCK_LEN]|
        #[trigger] call_requires(compress, (k, s, b))
}

/// `compress` gives one result for each argument.
pub open spec fn is_deterministic<F: Compression>(
    compress: F,
) -> bool {
    forall|k: &[u8; KEY_LEN], s: &[u8; STATE_LEN], b: &[u8; BLOCK_LEN], r1: [u8; STATE_LEN], r2: [u8; STATE_LEN]|
        #![trigger call_ensures(compress, (k, s, b), r1), call_ensures(compress, (k, s, b), r2)]
        call_ensures(compress, (k, s, b), r1) && call_ensures(compress, (k, s, b), r2) ==> r1 == r2
}

/// With a deterministic compression function, the chaining state reached from a given
/// start over given blocks is unique.
pub proof fn lemma_chain_unique<F: Compression>(
    compress: F,
    key: [u8; KEY_LEN],
    init: Seq<u8>,
    blocks: Seq<Seq<u8>>,
    x: [u8; STATE_LEN],
    y: [u8; STATE_LEN],
)
    requires
        is_deterministic(compress),
        chains_to(compress, key, init, blocks, x),
        chains_to(compress, key, init, blocks, y),
    ensures
        x == y,
    decreases blocks.len(),
{
    if blocks.len() == 0 {
        assert(x =~= y);
    } else {
        let (px, bx) = choose|prev: [u8; STATE_LEN], block: [u8; BLOCK_LEN]|
            #[trigger] call_ensures(compress, (&key, &prev, &block), x) && block@ == blocks.last()
                && chains_to(compress, key, init, blocks.drop_last(), prev);
        let (py, by) = choose|prev: [u8; STATE_LEN], block: [u8; BLOCK_LEN]|
            #[trigger] call_ensures(compress, (&key, &prev, &block), y) && block@ == blocks.last()
                && chains_to(compress, key, init, blocks.drop_last(), prev);
        lemma_chain_unique(compress, key, init, blocks.drop_last(), px, py);
        assert(bx =~= by);
        assert(call_ensures(compress, (&key, &px, &bx), x));
        assert(call_ensures(compress, (&key, &px, &bx), y));
    }
}

/// Chaining over `first` and then, from where that ended, over `second` is chaining
/// over `first + second`.
pub proof fn lemma_chain_append<F: Compression>(
    compress: F,
    key: [u8; KEY_LEN],
    init: Seq<u8>,
    first: Seq<Seq<u8>>,
    second: Seq<Seq<u8>>,
    mid: [u8; STATE_LEN],
    last: [u8; STATE_LEN],
)
    requires
        chains_to(compress, key, init, first, mid),
        chains_to(compress, key, mid@, second, last),
    ensures
        chains_to(compress, key, init, first + second, last),
    decreases second.len(),
{
    if second.len() == 0 {
        assert(first + second =~= first);
        assert(mid =~= last);
    } else {
        let (p, b) = choose|prev: [u8; STATE_LEN], block: [u8; BLOCK_LEN]|
            #[trigger] call_ensures(compress, (&key, &prev, &block), last) && block@ == second.last()
                && chains_to(compress, key, mid@, second.drop_last(), prev);
        lemma_chain_append(compress, key, init, first, second.drop_last(), mid, p);
        assert((first + second).drop_last() =~= first + second.drop_last());
        assert(call_ensures(compress, (&key, &p, &b), last));
    }
}

} // verus!
