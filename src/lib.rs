//! Resolution of a sharded model's weight files and the catalogue of tensors
//! that the resolved shards provide.
pub mod config;
pub mod device;
pub mod error;
pub mod index;
pub mod order;
pub mod shards;
pub mod store;
