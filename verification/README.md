# Doomslug

The block production rule of Doomslug, written in Verus: which approvals a
participant sends when the chain tip moves and when its timer runs out, how it
weighs the approvals of others, and when it may produce a block.

- `src/doomslug.rs`: the participant, `Doomslug`, and its state as a value
- `src/tracker.rs`: the approvals of one block and the thresholds they cross
- `src/timer.rs`, `src/time.rs`: the timer and its delays
- `src/stake.rs`: stakes, their sums, and the lists of approvals they weigh
- `src/approval.rs`, `src/signer.rs`: approvals and their signatures
- `src/assoc.rs`: lists of pairs seen as maps
- `src/types.rs`: plain types
- `src/laws.rs`: what holds of a participant whatever happens to it; foremost
  that no height is both endorsed and skipped
- `app/`: the wall clock, the types of the chain, and serialisation

Signatures come from `near_crypto`; what is taken for granted of them stands in
the doc comments of `src/signer.rs`.
