# quickpaste_history

The clipboard-history store of QuickPaste: records, collections, snippets,
search, paging cursors, restores, backups and recovery of a damaged
database, kept in SQLite.

- `src/` is the verified library (Verus). It holds the rules of the store:
  validation and normalisation of records and queries, timestamps and
  cursors, the search projection and its SQL predicates, payload decoding
  and byte accounting, capacity policy and which records pruning removes,
  standard base64, the restore registry, and the state
  machines that drive opening with recovery and quarantining a database.
  Calls into `base64`, `chrono`, `getrandom`, `image` and
  `unicode-normalization` go through the trusted items of
  `src/external.rs`, each with the contract the library relies on.
- `app/` is ordinary Rust around it: the SQLite side (`rusqlite`), files,
  the clock, serde copies of the library's types, and the drivers that run
  the library's state machines.
- `tests/` exercise the library through its public functions.
