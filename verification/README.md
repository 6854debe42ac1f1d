# apate

A stealth VPN tunnel whose logic is written in Verus: the library is verified, and its
functions state in `requires`/`ensures` what they compute. Where a result is drawn at random,
read from the clock, or (for the boxed backend) of a type Verus takes no contract on, the
contract says what holds of every outcome, or nothing.

## Layout

- `src/` — the verified library.
  - `config/` — the configuration format (`key = value` sections), its validation, and the
    built-in stealth profiles with their override files.
  - `cli/` — the command line, and the decisions the `client` and `server` commands take.
  - `auth/` — static keys, signed tokens and certificates, the coordinator that picks a
    backend per method, and the probe gate that shows unauthenticated clients a decoy site.
  - `noise/` — the handshake state machine and the transport cipher.
  - `crypto/` — thin contracts over BLAKE3, ChaCha20-Poly1305, X25519, Ed25519 and the
    random number generators.
  - `stealth/` — TLS/QUIC camouflage, padding, timing and traffic shaping, decoy traffic,
    session rotation and the decoy web responder.
  - `routing/` — IP addresses, CIDR routes with longest-prefix match, split tunnelling, DNS
    policy and DNS-over-HTTPS message framing.
  - `runtime/` — the event loop: readiness backends, reactor, executor, wakers and timers.
- `tests/` — tests run against the compiled library with the real outside crates.
- `app/` — the program: argument and file reading, sockets and the server loop, which hand
  plain values to the library and act on what it decides.

Calls into outside crates go through small wrappers marked `#[verifier::external_body]`;
each states what the crate's documentation promises, and nothing more.
