# AegisToken core

Verified core of the AegisToken universal RP2350 firmware: a FIDO2/WebAuthn
(CTAP2) and U2F authenticator with a management interface, on one USB device.

The library in `src/` is written in Rust and proved with Verus. Every public
function states in its contract what it returns or changes, for every input it
accepts; the properties that span several functions stand beside them as public
proof functions.

| Where | What |
|-------|------|
| `src/state.rs`, `src/lifecycle.rs`, `src/presence.rs`, `src/recovery.rs` | execution and lifecycle state machines, user presence, recovery |
| `src/capabilities.rs`, `src/hardware_profile.rs`, `src/discovery.rs`, `src/identity.rs` | what a board is and can do |
| `src/configuration.rs`, `src/reports.rs`, `src/management_protocol.rs`, `src/management.rs` | configuration model and management protocol |
| `src/cbor.rs`, `src/record.rs`, `src/codec.rs` | CBOR items and records |
| `src/ctap2.rs`, `src/ctaphid.rs`, `src/u2f.rs`, `src/pin.rs`, `src/authenticator.rs` | FIDO protocols and the authenticator |
| `src/crypto.rs`, `src/secret.rs`, `src/storage.rs`, `src/credential.rs`, `src/credential_store.rs` | primitives, sealing, power-fail-safe slots, credentials |
| `src/update.rs`, `src/firmware/` | signed updates, vendor key, self-test |
| `src/board/` | board catalog and the decisions of the drivers |
| `src/host/` | host tool: framing, command line, acceptance checks |
| `app/` | the host tool's `main` with libusb, and the adapters of the chip |
| `tests/` | tests of the library |

What outside crates compute (AES, SHA-256, HMAC, P-256, the CBOR items of
`minicbor`, the vector of `heapless`) is reached through small functions in
`src/crypto.rs`, `src/cbor.rs` and `src/credential.rs` whose contracts are not
proved here; each says which function it calls and what it claims of it.
