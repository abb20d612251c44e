# onvm

The core of an ONVM node as a Verus library: content-addressed hashing and
Merkle commitments, the protocol data model, the committee rules that
finalize program state transitions, peer exchange and the peer cache, the
network service's decisions, node and BLS identities, configuration, and the
scheduling rules for jobs. Every function in `src/` carries a contract that
Verus proves; calls into outside crates (BLAKE3, blst, secp256k1, libp2p,
ed25519-dalek, argon2, ChaCha20-Poly1305, HKDF, HMAC, base64, hex, rand)
stand behind small trusted wrappers whose contracts say what those crates
document.

Layout:

- `src/` — the verified library, one module per concern (see the module
  comments at the top of each file).
- `tests/` — tests of the library, run against the real outside crates.
- `app/` — the `onvm` command: it reads and writes the data directory
  (identity, BLS identity, `config.toml`), holds the serde copies of the
  transfer messages, and computes the transfer codec fingerprint from their
  encodings.
