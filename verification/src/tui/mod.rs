pub mod actions;
pub mod app;
pub mod event;
pub mod keys;
pub mod laws;
pub mod rows;
pub mod ui;
pub mod view;
