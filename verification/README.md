# lanclip

A clipboard inbox shared between paired machines on one local network, written
in Verus. Content copied on one machine is offered to its paired peers, which
accept or ignore it; pairing is confirmed by comparing a six-digit code shown on
both screens, and history is kept encrypted with a local key.

## Layout

- `src/` — the verified library. Each public function carries a contract:
  - `protocol`, `bytes`, `hex`: length-prefixed MessagePack frames, byte and hex
    encodings, with round-trip laws.
  - `crypto`, `cipher`, `pairing`, `identity`, `certificate`: BLAKE3,
    ChaCha20-Poly1305, Ed25519 and `rcgen` behind small trusted wrappers; the
    at-rest cipher (decrypting what was encrypted gives it back), the pairing
    code (symmetric, six digits) and the device identity.
  - `recent`, `clipboard`: the time-windowed maps that stop echoes and repeats,
    and the decisions on local and remote clipboard changes.
  - `transport`: authentication, pairing and the handling of received content.
  - `discovery`: mDNS announcements (only id, version and name) and the peer
    table kept from browse events.
  - `storage`, `commands`, `state`, `notification`, `tray`, `key_store`: history
    records and their filters, the views the user interface is shown, settings.
- `tests/` — tests on concrete values, run against the real outside crates.
- `app/` — the program around the library: QUIC connections, mDNS, SQLite,
  the system credential store and the clipboard itself.
