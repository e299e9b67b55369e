# hickory_bunker

A caching DNS forwarder that keeps answering from its local database when the
network is gone ("offline mode"), with an HTTP interface to switch modes,
freeze zones, report state and add A records by hand.

Layout:

- `src/` — the verified library (Verus):
  - `storage.rs` — cache entries and their stored byte layout (bincode),
    the database's key-count reading;
  - `names.rs` — domain names, record type mnemonics, store keys;
  - `wire.rs` — DNS wire messages read and written with hickory-proto;
  - `text.rs`, `ipv4.rs` — substring search, lowercase, decimal numbers,
    dotted-decimal addresses;
  - `resolver.rs` — when a cached answer is served, refreshed, or resolved
    upstream, and what is stored;
  - `handler.rs` — how a DNS query is answered, as a step machine driven by
    the caller's store reads and upstream answers;
  - `api.rs` — the control interface: mode, zones, statistics, manual records.
- `app/` — the program: RocksDB storage, the hickory DNS server and upstream
  resolver, the axum HTTP interface, and the loops that drive the library.
- `tests/` — tests of the library.
