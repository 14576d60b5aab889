# earn_quest

The verified core of a quest-and-reward contract: creators register quests and
lock rewards in escrow, participants submit proofs, verifiers approve or reject
them, approved submissions claim their reward once, rejected submitters may
open disputes, and oracle answers are aggregated into a weighted price. Each
claim earns the claimant experience points; the administrator grants badges
and can pause every state-changing operation in an emergency.

Layout:

- `src/` — the library, verified with Verus. `storage.rs` models the
  contract's environment (ledger time, its own address, everything stored);
  `escrow.rs`, `submission.rs`, `dispute.rs`, `oracle.rs` and `quest.rs` hold
  the operations; `contract.rs` the entry points; `laws.rs` the properties that
  span operations; `u256.rs` exact 256-bit arithmetic for prices.
- `tests/` — ordinary Rust tests of the library.
- `app/` — the Soroban contract around the library: it checks signatures,
  loads and stores the state in the ledger, and performs token transfers.
