pub mod chain_db;
pub mod codec;
pub mod error;
pub mod laws;
pub mod mem_store;
