# noted_core

The verified core of Noted, a desktop and iOS note-taking app: the rules that
decide what may be stored, paired, disclosed and filed, written in Verus with
their contracts proved.

## Layout

- `src/` — the library, every function verified.
  - `direct_authority_store.rs` — the fixture-only direct pairing authority:
    input validation, the invitation and receipt state machines, replay and
    quarantine capacity, checkpoints and acknowledgements, the schema audit.
  - `direct_pairing.rs`, `direct_pairing_delivery.rs` — owner confirmation
    routing and the signed, replay-exact bootstrap poll.
  - `record_crypto.rs`, `models.rs`, `canonical.rs`, `digest.rs`,
    `base64_codec.rs`, `error.rs` — record contexts, the fixed binary
    ciphertext codec, canonical JSON, identifiers and native error codes.
  - `context_pass.rs`, `context_packet.rs` — Agent Access: requests, one-way
    Context Passes delivered in whole-character chunks, the exact packet and
    metadata-only meeting ranking.
  - `applecal.rs` — calendar visibility, access states, call links, attendee
    summaries and event spans.
  - `brain.rs`, `db.rs`, `text.rs` — vault note parsing, folder and filing
    rules, public meeting identifiers, and the text functions the rest is
    stated over.
  - `analytics.rs`, `category_schema.rs` — trend extraction over free-form
    category data, and how a category's schema grows from what is saved.
  - `approval_broker.rs`, `backup.rs` — the agent broker's request framing
    and routing, and the acceptance rule for database snapshots.
  - `fixture_record_crypto.rs` — the sanitized development fixture's record
    sealing and opening.
- `tests/` — tests of the library.
- `app/` — the I/O edge: JSON wire forms, the authority store's SQLite
  transactions, note filing and its undo, the MCP client configuration
  text, other SQLite queries and floating-point window geometry,
  each reading what a verified decision needs and carrying out what it
  decides.

Outside crates are called from `src/` only behind small trusted wrappers:
`sha2` for SHA-256, `base64` for the standard alphabet, `serde_json` to
write JSON string literals, to tell whether stored text is well-formed JSON
and whether two JSON texts hold the same value, `chrono` to read calendar dates, `p256`, `aes-gcm` and `hkdf`
for the fixture's signatures, sealing and key derivation, and `getrandom`
and `rand` for nonces and identifiers.
