//! The connection lifecycle of a Gemini Live session.
//!
//! [`session::Session`] connects, sends the setup, turns what the server says into one stream of
//! events, remembers the resumption handle and, when a connection ends, reconnects with backoff
//! and resumes. [`model`] states it as a state machine, [`laws`] what holds over whole runs.
pub mod audio_laws;
pub mod base64;
pub mod json;
pub mod laws;
pub mod model;
pub mod policy;
pub mod session;
pub mod setup_laws;
pub mod step_laws;
pub mod types;
pub mod view_laws;
pub mod wire;
