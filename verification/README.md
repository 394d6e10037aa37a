# opensk

The core of a FIDO2 authenticator, written in Rust and verified with Verus: the
commands of CTAP2, the protocol for its PIN, the credentials that it stores or
hands out in encrypted form, and the cryptography around them.

- `src/ctap/` is the authenticator. `CtapState` holds its state and
  `CtapState::process_command` answers a request. `laws.rs` and `canonical.rs`
  state what holds of the authenticator as a whole.
- `src/cbor/` reads and writes the canonical CBOR that requests and answers are
  written in.
- `src/crypto/` holds HMAC, HKDF, CBC, ECDH, ECDSA and a hybrid of ECDSA and
  Dilithium. The primitives below them come from other crates: the functions
  marked `external_body` make those calls, and their contracts are believed and
  not proved. So is the contract of `Rng256`, the source of randomness, which
  users of the library implement.
- `src/text.rs` and `src/bytes.rs` help with strings and byte strings.
- `app/` connects the library to the random number generator of Wasefire.

A contract speaks of the views of the values: `StateModel` for the state,
`StoreModel` for what outlives a restart, `Item` for CBOR. A function that draws
random numbers or asks for the user's presence says what holds whatever came;
beside it stands one that takes what came as an argument and pins the result
down.
