pub mod memory;
pub mod models;
pub mod traits;
