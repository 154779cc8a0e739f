pub mod async_runtime;
pub mod context;
pub mod error;
pub mod executor;
pub mod floats;
mod keys;
pub mod laws;
pub mod memory;
pub mod operations;
pub mod semantics;
pub mod text;
pub mod value;
