# gemini_live

The connection lifecycle of a Gemini Live session, verified with Verus: connect, send the setup,
turn what the server says into one stream of events, remember the resumption handle, and on a
close reconnect with backoff and resume.

- `src/json.rs`: a model of JSON documents and the `serde_json` calls that build and print them.
- `src/types.rs`: the values that the session handles, with their views.
- `src/wire.rs`, `src/base64.rs`: the setup message and the audio frame.
- `src/setup_laws.rs`: what holds of every setup message.
- `src/policy.rs`: backoff and failure counting.
- `src/model.rs`: the session as a state machine.
- `src/session.rs`: the session itself, proved to follow that machine.
- `src/laws.rs`: what holds over whole runs of a session.
- `app/`: the asynchronous driver over a transport.

The session does no I/O. Whoever drives it performs each `Action` and reports the outcome as the
next `Input`; `app/` does so on tokio. What is trusted is written down where it stands: the
`serde_json` items in `src/json.rs`, `Duration::from_millis` in `src/policy.rs` and
`String::push` in `src/base64.rs`.
