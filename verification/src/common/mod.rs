pub mod fmt;
pub mod imagedb;
pub mod progress;
pub mod transaction;
