pub mod text;
pub mod common;
pub mod error;
pub mod paths;
pub mod schema;
pub mod convert;
pub mod layering;
pub mod osrelease;
pub mod config;
pub mod report;
pub mod images;
pub mod cli;
pub mod params;
pub mod operations;
pub mod render;
