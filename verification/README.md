# BarePass

A terminal password vault whose core is verified with Verus.

## Layout

- `src/` — the verified library.
  - `model` — vault data: password entries, secure notes, adding, editing,
    soft deletion, restoring and purging entries, payload fields.
  - `crypto` — Argon2id key derivation, XChaCha20-Poly1305 sealing, OS
    randomness (through the `argon2`, `chacha20poly1305` and `getrandom`
    crates).
  - `storage` — the vault file format (header, KDF settings, salt, nonce,
    ciphertext), opening and sealing vault files, backup decisions.
  - `app` — the application state machine: screens, keys, the pending change
    awaiting its save and how a failed save is taken back.
  - `screen` — what each screen shows, as text.
  - `listing`, `search`, `form`, `session`, `clipboard`, `generator`,
    `password_analysis`, `calendar`, `layout`, `text` — the smaller pieces.
- `app/` — the program around the library: terminal setup and drawing with
  ratatui/crossterm, the vault file on disk (paths, lock, atomic writes,
  backups), JSON payloads with serde, and the system clipboard with arboard.
- `tests/` — tests of the library.
