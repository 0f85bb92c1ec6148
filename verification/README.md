# rustorium

The core of a sharded DAG ledger node, written in Verus. The library's functions carry
`requires`/`ensures` contracts that Verus proves; the few that read the clock, draw random
numbers or hand out a contract object state what can be known of their results, and
sometimes nothing.

## Layout

- `src/` — the verified library.
  - `dag/` — the transaction DAG (dependencies by sender and nonce, executable set,
    execution results) and its executor, a state machine whose rounds and results the
    node drives.
  - `node/` — shards and their coordinator (assignment, rebalancing, cross-shard
    two-phase commit), shard storage keys and state merging, the cache with expiry, clock
    synchronisation, vote tallies, peer discovery decisions, Raft log, QUIC message framing.
  - `gossip/` — peers, gossip messages and the Avalanche rounds of the gossip protocol.
  - `token/` — standard tokens (balances, allowances, modules), the staking contract, their
    generator and the token registry.
  - `legacy/` — the contract engine and execution context, the web answers, the command
    messages and the development node settings.
  - `keyed.rs` — the map held as a vector of unique keys that the rest builds on; `codec.rs`,
    `text.rs`, `clock.rs`, `random.rs`, `paths.rs` — the calls into std and outside crates,
    each behind a small trusted wrapper with its stated contract.
- `tests/` — tests of the library.
- `app/` — the node binary: command line, logging, network and timer loops, the database
  file, and the parts that compute with floating point.
