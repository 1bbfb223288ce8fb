pub mod database;
pub mod imagedb;
pub mod files;
pub mod local;
pub mod pattern;
pub mod query;
pub mod remove;
pub mod repos;
pub mod sync;
pub mod upgrade;
