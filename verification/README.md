# p2p-transfer

Peer-to-peer file transfer with compression, chunk-level resume, LAN
discovery and pairing through a rendezvous server.

## Layout

- `src/` — the library, verified with Verus. Every public function carries
  a contract; the properties that span several functions are public proof
  functions (`lemma_*`).
  - `protocol`, `handshake`, `framing` — control messages, the hello/config
    exchange and length-prefixed frames.
  - `transfer_file`, `transfer_folder`, `folder_flow`, `window` — chunk
    streams and their spans, the resume state of a folder transfer, the
    steps of a folder send and receive with the check of received paths,
    the sliding window.
  - `compression`, `verification` — zstd, CRC32 and SHA-256 behind small
    trusted wrappers, and the checks built on them.
  - `discovery`, `stun`, `traversal`, `rendezvous`, `session` — beacons,
    STUN packets and NAT classification, pairing codes and the pairing
    table, and the decisions of session set-up and retry.
  - `cli`, `config`, `history`, `gui`, `text` — command parameters and
    resume-state matching, settings, transfer history, the state machine of
    the graphical interface, and small text helpers.
- `app/` — the command-line program around the library: argument parsing,
  sockets, files, timers and logging. It runs the library's send and
  receive steps and carries out the actions they name.
- `tests/` — tests of the library on concrete values.
