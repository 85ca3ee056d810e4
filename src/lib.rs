pub mod bytes;
pub mod crypto;
pub mod dedup;
pub mod engine;
pub mod membership;
pub mod models;
pub mod router;
pub mod wire;
