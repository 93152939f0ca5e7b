# tphone

The core of TerminalPhone, an anonymous end-to-end-encrypted push-to-talk phone over Tor onion
services, verified with Verus.

`src/` is the library. Verus proves the contracts of its functions. What the outside crates do is
not proved: the few functions that call them state it, and their contracts are taken on trust. Of the
random bytes that one of them draws nothing is stated.

| Module | What it holds |
|---|---|
| `proto` | wire frames, the HELLO body, the incremental frame reader, the handshake |
| `crypto`, `aead`, `replay` | call keys, nonces and authenticated data, the two ciphers, the replay window |
| `app` | the call: roles, lifecycle, what each frame or local event makes the call do |
| `session`, `tui` | the interactive call, key mapping, the talk gesture, the call screen |
| `secret` | the pre-shared secret at rest |
| `audio` | codec parameters, capture framing, the jitter buffer, voice-effect noise |
| `cli`, `config`, `transport`, `qr`, `selftest` | arguments, settings, addresses, QR pictures, self-test checks |
| `bytes`, `text`, `double`, `error` | byte and text helpers, rounding to double precision, the error type |

Properties that span several functions stand beside them as proof functions whose names start with
`law_`: that a call delivers in order what was sent, that a replayed or forged frame does nothing,
that no nonce is used twice, that a written secret loads back, that playout is first in, first out,
and so on.

`app/` is the program around the library: the terminal, the devices, the codec, the Tor client and
the in-process transport of the self-test. `tests/` runs the library with the outside crates linked.
