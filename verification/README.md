# p2p_blockchain_rust

A minimal proof-of-work blockchain, verified with Verus.

- `src/` is the verified library: transactions (`transaction`), blocks
  (`block`), the proof-of-work search (`proof_of_work`), chains and their
  validity (`blockchain`), the decisions a node takes on peer messages,
  including the longest-valid-chain rule (`networking`), and the stdin
  commands (`command`). `util` holds the trusted calls into `sha2`,
  `data-encoding` and `std`; the trusted call into `num-bigint` stands in
  `proof_of_work`.
- `app/` is the node program: libp2p (Gossipsub + mDNS) networking, the tokio
  event loop, and JSON encoding of blocks and messages with serde.
- `tests/` runs the library on concrete chains.
