//! Message envelopes for delay-tolerant networking: short messages, threaded
//! news posts and location reports, carried as bundle payloads.
//!
//! Records travel in a compact CBOR form whose encoders and decoders are
//! proved to invert each other; a bundle is wrapped into an envelope only
//! after its endpoints and its payload have been checked.
pub mod block;
pub mod cbor;
pub mod client;
pub mod compress;
pub mod endpoint;
pub mod fields;
pub mod location;
pub mod news;
pub mod priority;
pub mod sms;
pub mod transport;
