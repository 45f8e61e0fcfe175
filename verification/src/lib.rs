//! The state machines of a vault: the quota accounts kept for clients, the
//! mailboxes kept for messaging clients, and the replica of a section's
//! wallets.
//!
//! Nothing here talks to the network or to a disk. Every handler takes what
//! arrived as a plain value and returns what has to be sent; the caller owns
//! the sockets and the files.

pub mod error;
pub mod name_map;
pub mod personas;
pub mod transfers;
pub mod types;
pub mod utils;
