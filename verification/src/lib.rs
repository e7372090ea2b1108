//! Client-side quorum logic for publishing signed records to a set of
//! independent relays and for reading them back.
//!
//! The crate holds no sockets and spawns no tasks. It decides what is sent to
//! each relay, classifies what comes back, and keeps the per-key vote tally
//! from which a publish is declared accepted or rejected.
//!
//! - [`quorum`] states the rules: when a publish is admitted, what the votes
//!   of the relays decide, and what follows from both.
//! - [`inflight`] is the registry of writes in flight that carries the rules
//!   out, and [`tally`] counts the errors of one write.
//! - [`transport`] describes one request to one relay and judges its answer;
//!   [`relay`] forms the URLs.
//! - [`client`] puts these together for a fixed set of relays.
//! - [`record`] and [`error`] hold the values that pass through.
//! - [`config`] is the configuration of a relay.

pub mod client;
pub mod config;
pub mod error;
pub mod inflight;
mod keyed;
pub mod quorum;
pub mod record;
pub mod relay;
pub mod tally;
pub mod transport;
