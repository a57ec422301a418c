pub mod models;
pub mod text;
pub mod json;
pub mod output;
pub mod ws;
pub mod tunnel;
pub mod tui;
pub mod commands;
