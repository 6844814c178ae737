# spindle

Peer-to-peer sessions between a client device and a host: signed artifacts in deterministic CBOR,
sealed signaling over a message broker, trickled ICE, and a QUIC control stream whose certificates
are pinned by fingerprint.

- `src/proto`: the encoding, the artifacts that it carries, and the file system protocol.
- `src/net`: framing, fingerprints, pinning, key agreement, and signaling. A connect (client) and a
  session (host) are state machines: each step takes what came of the last action and names the next.
- `src/vectors`: test vectors for other implementations of the formats, as JSON.
- `src/fixtures`: connect tokens, event logs and a small JSON reader for use against a live broker.
- `app`: sockets, the broker, the ICE agent and the QUIC stack around the library. Sealing and opening
  envelopes is asked of an implementation of `Device`.

The library in `src` is verified with Verus. Public proof functions named `law_..` state what holds
across calls: that every artifact is read back from its bytes and from no others, that a signature
covers every field, that no message is accepted twice, and in which order a connect does what.
