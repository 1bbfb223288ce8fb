pub mod palette;
pub mod output;
