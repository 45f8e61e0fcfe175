//! The replica of the wallets that a section keeps.

pub mod data_types;
pub mod framing;
pub mod replicas;
pub mod store;
pub mod wallet;
