# certificate

Quest-completion certificates for the Lernza platform.

- `src/` — the verified library (Verus). `model.rs` gives the mathematical
  value of the contract's storage and of every operation; `contract.rs`
  holds the executable operations, each proved against the model;
  `laws.rs` proves the properties that span operations (what a mint or a
  revocation reads back, the owner-only rule, and the storage invariant,
  which a revocation and a metadata-base update always keep and a mint keeps
  when its token id is fresh, as the NFT ledger's sequential ids are);
  `history.rs` models sequences of calls together with the NFT id counter and
  proves the laws over them (every reachable storage is consistent,
  successive mints get strictly increasing ids, re-certification after a
  revocation gets a new id, the last
  metadata base written wins, a token reads as revoked exactly when a
  revocation of it succeeded, metadata reads back until revoked);
  `table.rs` is the verified key/value store the storage is built from.
- `app/` — the Soroban contract: ledger storage, ownership, NFT minting and
  burning, ledger time and events, around the library.
- `tests/` — scenario tests of the library.

Quest names, categories and the metadata base URI are kept as raw bytes,
as the ledger keeps them; addresses are kept as their strkey text.
