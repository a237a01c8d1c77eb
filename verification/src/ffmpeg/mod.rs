pub mod args;
pub mod progress;
pub mod runner;
