# hot_spare_vote

Voting for a Solana validator with a hot spare beside it. Both propose votes. A secondary tower
judges each of them, and the first vote for a slot that this tower allows is sent to the cluster.

- `src/` decides, and is verified with Verus: the tower and its lockouts, which votes are admitted
  and what they leave behind, how a vote is read from a transaction, and what is done with an
  admitted vote. `src/laws.rs` states what holds of all this together.
- `tests/` runs the library on concrete votes and holds it against the vote program's own types.
- `app/` runs it: threads, the UDP listener, the tower storage and the cluster. `app/cluster.rs`
  needs the crates of a running validator (`solana-client`, `solana-connection-cache`,
  `solana-gossip`, `solana-poh`), which `Cargo.toml` does not list.

Verified code takes on trust that decoding a vote instruction, checking the signatures of a
transaction and encoding a transaction each depend on their input alone, and that encoding fails
only on lists that are too long.
