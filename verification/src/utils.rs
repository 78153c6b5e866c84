pub mod config;
pub mod utilities;
