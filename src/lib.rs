pub mod config;
pub mod stats;
pub mod runloop;
pub mod usage;
