[package]
name = "safe_vault"
version = "0.1.0"
edition = "2021"
publish = false

[dependencies]
bincode = "=1.3.3"
crdts = "=4.3.0"
futures = "=0.3.34"
log = "=0.4.34"
lru_time_cache = "=0.2.7"
maidsafe_utilities = "=0.19.0"
rand = "=0.7.3"
serde = { version = "1", features = ["derive"] }
sn_data_types = "=0.11.39"
sn_transfers = "=0.2.5"
sodiumoxide = "=0.2.7"
threshold_crypto = "=0.4.0"
time = "=0.1.45"
