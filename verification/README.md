# dplmt_router

Multi-bridge routing for cross-chain transfers: a request is put to every
bridge adapter ("booth"), each booth's quote is scored on amount delivered,
duration, security and slippage, and the answers are folded into one ranked
response. A small deterministic parser reads transfer requests out of free
text.

## Layout

- `src/` is the library, verified with Verus. Every public function states
  its result in its contract; the laws that relate functions are public proof
  functions (`lemma_*`).
  - `chain.rs`, `booth.rs`: chains, booth identities, quotes and requests.
  - `bridges.rs`, `bridges/*.rs`: per bridge, the chains it serves, the query
    it sends and the quote it makes of the reply; the offline booths
    (Wormhole, Hyperlane) quote in full.
  - `scoring.rs`: scores and ranks quotes, and picks the best per axis.
  - `engine.rs`: checks a request and folds the booths' outcomes.
  - `intent.rs`: the free-text intent parser.
  - `errors.rs`, `text.rs`: the error type; decimal rendering and byte search.
- `app/` is ordinary Rust around the library: the asynchronous engine
  (tokio), the HTTP booths (reqwest), the `Booth` trait, and serialisable
  copies of the library's types (serde, thiserror) with conversions.
- `tests/` exercises the library.

## Units

The library holds no floating-point numbers. Token amounts and USD fees are
integers in millionths of a unit (an amount delivered is signed: Across
delivers less than nothing when its fees exceed the amount sent), slippage is in hundredths of a percent,
rating weights and mode weights are in percent, and a score is fixed-point
with `scoring::SCORE_ONE` standing for 1 (each normalised axis is rounded
down to fifteen decimals). The copies in `app/` convert to and from floats at
the edge; numbers in a booth's reply are read there as `f64`, as the booths
write them (exponents and decimals included), and handed to the library as
whole base units.
