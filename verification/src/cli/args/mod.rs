pub mod database;
pub mod query;
pub mod remove;
pub mod sync;
pub mod deptest;
pub mod upgrade;
pub mod files;
pub mod images;
