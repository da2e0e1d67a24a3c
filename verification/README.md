# vaultship

Protected container delivery: encrypted image layers, hardened compose services, an
anti-extraction seccomp profile, Ed25519-signed image references, hardware-bound key files
and signed deployment licenses.

The library under `src/` is verified with Verus. Each public function states in its
contract what it returns; the laws of the library (round trips, idempotence of hardening
and of manifest annotation, what a valid license or a released key implies) are public
proof functions beside the functions they speak of.

- `layer`: AES-256-GCM layer encryption with the plaintext digest checked on decryption.
- `harden`, `seccomp`, `compose`: compose hardening, the seccomp profile, and what a build
  reads from compose text.
- `signing`, `bind`, `license`, `sdk`, `time`: signed references, bound key files,
  licenses and their validation, expiry dates and heartbeats.
- `registry`, `oci`: registry references, credentials, API URLs and manifest annotation.
- `cli`: the rules of the command-line tool (exit codes, profiles, run arguments, names).
- `crypto`, `encoding`, `text`: the calls into the cryptographic and encoding crates, each
  behind a trusted contract, and verified text utilities.

`app/` is the command-line program around the library: argument parsing, files,
processes, the network and the serde copies of the library's types.
