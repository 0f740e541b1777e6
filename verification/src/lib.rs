pub mod app;
pub mod clock;
pub mod config;
pub mod git_log;
pub mod models;
pub mod order;
pub mod scanner;
pub mod sort;
pub mod text;
pub mod utils;
