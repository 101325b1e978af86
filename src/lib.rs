//! Commit-reveal swap sessions.
//!
//! A user first publishes a Keccak-256 commitment to the parameters of a token
//! swap, later reveals the parameters and a secret salt, and only then may the
//! program act, through an address that it derives and signs for, to route the
//! swap and to skim a protocol fee from the proceeds.
pub mod authority;
pub mod codec;
pub mod descriptor;
pub mod error;
pub mod history;
pub mod record;
pub mod session;
pub mod stored;
mod wire;
