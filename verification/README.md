# latticefold commitments (SWIFFT backend)

A Verus-verified library for committing to byte strings with the SWIFFT
compression function, as used by the latticefold folding scheme.

A message is cut into 56-byte blocks (the last one filled up with zeros) and the
blocks are absorbed one after another into a 72-byte chaining state that starts at
all zeros. Each absorption is one call of the SWIFFT compression function under the
scheme's 1024-byte key. The compression function itself is handed in by the caller
(any `Fn(&key, &state, &block) -> state`); the contracts say which calls are made,
on which blocks, and that the commitment is the state they chain to.

Layout:

- `src/blocks.rs`: how a message becomes blocks (zero padding, block count).
- `src/chain.rs`: iterating a compression function over blocks; uniqueness and
  concatenation of chains.
- `src/swifft.rs`: the commitment, buffer, scheme and backend types and the
  commitment functions, including commitments to serializable values.
- `src/digest.rs`: a digest from either backend and its byte form.
- `src/error.rs`, `src/traits.rs`: the error type and the backend interface.
- `src/laws.rs`: properties that span calls (buffer independence, empty message,
  trailing zeros, block-aligned prefixes).
- `app/lib.rs`: the error type with its `Display` text, and the SWIFFT compression
  function plugged into the library. The latter calls a `swifft` crate that exposes
  `Key`, `State`, `Block` and `State::compress`; the `swifft` package on crates.io
  (0.1.0) has a different API, so that crate has to be supplied for this file to build.
