pub mod commands;
pub mod ffmpeg;
pub mod json;
pub mod number;
pub mod paths;
pub mod state;
pub mod text;
pub mod types;
