# ldk_node

The decision logic of a Lightning node, verified with Verus.

- `src/channel`: which failed splices are retried, with what, and when they are given up on.
- `src/wallet`: how the changes of the on-chain wallet reach the store without being lost.
- `src/payment`: how the metadata that travels with a payment is laid out in bytes.
- `src/primitives.rs`: identifiers and transaction parts as plain values.
- `app`: the calls to the channel manager, the wallet and the store.

The library performs no I/O. Where something has to be asked for, a function returns the action to
perform, and another function takes the outcome. Each area has a `laws` module that states what
holds across its functions.

Calls into `lightning`, `bitcoin`, `bdk_chain` and `bdk_wallet` stand behind small functions whose
contracts are trusted; the comment above each says what is relied on.
