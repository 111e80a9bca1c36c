# consensus_model

A verified model of a chained-BFT consensus replica (in the style of
LibraBFT) and of the HotStuff protocol, written in Verus.

- `src/` — the verified library.
  - `safety_rules`: the voting rule, the preferred-block rule and the
    three-chain commit rule, with their laws (no second vote in a round, no
    vote after a timeout of the round, monotone rounds).
  - `block_tree`, `block_store`: the tree of blocks, states and certificates;
    validation of new blocks, vote aggregation into certificates, sync/fetch
    decisions, paths to the root.
  - `pacemaker`, `timeout`: the current round (one past the highest certified
    round, never decreasing) and timeout certificates formed by a quorum of
    distinct authors.
  - `proposer_election`, `proposal_generator`: round-robin leaders, at most one
    proposal per round.
  - `event_processor`: the decision taken on each event, returned as actions.
  - `hotstuff`: the HotStuff model (voting and locking rules, three-chain
    commits) over a fixed array of blocks, with quorum intersection (no two
    blocks of one height are both certified).
  - `hotstuff_safety`: safety of the HotStuff model over whole runs: when
    every proposal carries a certified justification, all committed blocks lie
    on one branch, so the consistency checks made on each commit never fail.
- `tests/` — tests of the library.
- `app/` — the executable: event loops, storage (MessagePack files), round
  durations (floating point), hashing.
