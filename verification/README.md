# thetadatadx (verified core)

The decision-making core of a market-data SDK, written in Verus and proved
against its contracts:

- `src/` — the verified library: wire enums and their codes, subscription
  shapes, frame encoding and the framing read-step decisions, FIT delta
  decompression, frame dispatch (`decode::decode_frame`), the login
  handshake step, the subscription registry and its replay invariants,
  host ordering for connect and failover, the client settings builder,
  the callback-drain decisions, condition-table and endpoint-registry
  lookups, historical response-table decoding, time-of-day
  canonicalisation, and the row buffer behind the columnar batch reader.
  Public proof functions state the laws that span several calls.
  The batch reader's buffer holds verified rows (`batch::BatchRow`); the
  Arrow column builders are filled from those rows in one place, in
  `app/arrow_batch.rs`, because a third of the columns are prices that
  become floats on their way into Arrow, and one `RecordBatch` is assembled
  from all columns together.
  `src/drain.rs` holds the decisions of a polling drain (what each poll
  outcome means for the loop and how a session ends); the loop that hands
  events to a caller's closure belongs to the streaming client, which is
  not part of this crate.
- `tests/` — executable tests of the library.
- `app/` — plain Rust around the library: sockets and TLS, blocking reads
  under the stall clock, the login read loop, a session's frame pump,
  full-stream subscribe and replay, the Prometheus exporter, Arrow export of
  buffered rows, and error types that implement `Display`.
