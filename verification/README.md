# sealed_auction

A sealed-bid auction, verified with Verus. Creators open auctions with a
starting bid and a duration; bidders commit to a hidden amount by publishing
the hexadecimal SHA-256 digest of the amount's decimal text followed by a
secret, reveal amount and secret before the end time, and the auction keeps the
highest revealed amount and its bidder. An auction is ended after its end time
or cancelled by its creator.

- `src/types.rs`: auctions, bids, events, errors and their mathematical values.
- `src/model.rs`: the contract state as a mathematical value, its invariant,
  and each operation as a transition (first refusing check, next state).
- `src/contract.rs`: the executable contract state and its operations, each
  proved to follow its transition and keep the invariant; loading and storing
  the state part by part.
- `src/registry.rs`: the per-user id lists and the set of commitments made.
- `src/text.rs`: decimal and hexadecimal text, byte comparison.
- `src/hashing.rs`: the host's SHA-256 and the commitment it defines.
- `src/laws.rs`: properties that span operations.
- `app/`: the Soroban contract: storage, events, the ledger time and the
  contract's address.
