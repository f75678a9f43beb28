# scalar

The verified core of the Scalar node: how blocks are built out of the
transactions that the Narwhal consensus layer commits, how the parties of the
threshold-signature network route, sanitise and answer protocol messages, how
external events gather signatures up to a quorum of stake, and the keys and
lookups of object storage.

The functions in `src/` are verified by Verus against their contracts. The
few calls into outside crates (`hex`, `ethers-core`, `itertools`, `uuid`, and
`String::push`) go through small wrappers; each states what it promises in
its `ensures` clauses, and its doc comment names the outside function.

Layout:

- `src/consensus`, `src/consensus_adapter`: the block builders, with the
  laws they keep (only committed transactions are sealed, none is lost or
  duplicated, the queue keeps its order, each sender's nonces are sealed in
  order).
- `src/gg20`, `src/tss.rs`, `src/tofnd`: message routing, argument
  sanitising, the per-message decisions of key generation and signing, and
  the steps of a party's life.
- `src/scalar_event.rs`, `src/types.rs`, `src/multisig.rs`: event digests,
  signature sets and signing requests.
- `src/storage.rs`, `src/base_types.rs`, `src/move_types.rs`: object keys,
  package and module lookups, well-known addresses.
- `src/cli.rs`, `src/scalar_ext.rs`, `src/swarm.rs`, `src/kv_store.rs`,
  `src/json_rpc_error.rs`: settings, addresses and error classes.
- `app/`: serializable and command-line forms of the library's types,
  conversions from outside error types, and the loops that drive a party,
  a key generation, a signing and the routing of incoming traffic on the
  library's decisions.
- `tests/`: tests of the library on concrete values.
