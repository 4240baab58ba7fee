# agritrust

Verified core of the AgriTrust Soroban contracts, written in Verus.

- `src/` — the library. Each contract's ledger storage is a plain-value
  store type (`AdminStore`, `ProvenanceStore`, `OptimisticStore`,
  `VestingStore`, `ZkKycStore`, `PrecisionStore`); every operation is a
  verified function over it whose contract states the new store, the result
  and the events published. Laws that span operations are public proof
  functions next to the code they speak of (`state/laws.rs` holds the
  invariant of the optimistic-concurrency store).
- Storage contents are plain values in the library: byte strings as `Vec<u8>`
  and maps keyed by bytes as `BytesMap`. Soroban's `Map`, `Vec` and `Bytes`
  are handles to objects that live in the host and exist only inside an
  `Env`; the library does not hold them, and declaring them as outside types
  with specified wrappers was not tried. `app/` converts between the two at
  the storage boundary.
- `src/crypto.rs` — the one call into `soroban-sdk` that the logic makes:
  SHA-256 through the host, behind a trusted wrapper.
- `tests/` — executable tests of the library.
- `app/` — the Soroban entry points: they load the model from ledger
  storage, check auth, run the verified operation, write the model back and
  publish its events.
