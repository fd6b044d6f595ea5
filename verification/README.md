# streamcatcher

A thread-safe, shared stream buffer. A source's bytes are drawn once, through a
transform, into a store that any number of handles read at their own positions.
Handles can seek on otherwise one-way streams; only a read that needs new bytes
locks the store for itself.

The library under `src/` is written in Verus and verified:

- `config.rs`: configuration (`Config`, `Finaliser`) and small value types.
- `rope_state.rs`: the packed word holding the finalisation state and the number
  of rope readers.
- `transform.rs`: byte sources, transforms (sync and polled), transform state,
  and `StreamError`, an I/O error with its kind as a plain value.
- `store.rs`: `RawStore`, the rope of chunks, the contiguous backing store, and
  the read / fill / finalise logic, with its invariant.
- `catcher.rs`: `TxCatcher` handles over a store shared behind a verified
  reader-writer lock; reading, seeking, skipping, loading; polled variants.
  Each handle records the state of the store it last observed under the lock,
  and counts its failed and stalled reads; the contracts of its reads, seeks,
  skips, loads and getters speak of these.
- `naive.rs`: the naive baseline reader and its core.
- `laws.rs`: properties that span several calls.

`app/` holds what Verus does not see: adapters from `std::io::Read` and
`futures::io::AsyncRead`, handles implementing the standard and `futures` I/O
traits, finaliser threads and runtime tasks, `Display`/`Error` for the error
type, and the naive reader as a `std::io::Read`.
