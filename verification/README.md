# object_store_get

Retrieval of objects over HTTP: range requests, validation of responses, and response bodies that
are resumed where they broke off. The library is written and verified in Verus.

- `src/get.rs`, `src/get_attributes.rs`, `src/header.rs`: what a response has to look like, and what
  it says of the object.
- `src/stream.rs`: the transfer of a body as a state machine, with each state a type of its own.
- `src/stream_laws.rs`, `src/get_laws.rs`: what holds of transfers and of accepted responses.
- `src/fields.rs`, `src/chunk.rs`: what is believed of the crates `http` and `bytes`.
- `src/text.rs`: strings, and what is believed of how the standard library quotes them.
- `src/context.rs`: one request from its options to the transfer of the body.
- `src/backoff.rs`, `src/runtime.rs`: how long, and how, to wait before a retry.
- `app/`: the asynchronous client that makes the requests, reads the bodies and waits.
