//! The roles a vault plays towards clients.

pub mod account;
pub mod maid_manager;
pub mod mpid_manager;
pub mod request;
pub mod request_cache;
