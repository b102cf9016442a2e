//! Library core of the myfocus feed reader.

pub mod commands;
pub mod db;
pub mod diagnostics;
pub mod feed_guard;
pub mod digest;
pub mod fetcher;
pub mod hn;
pub mod html;
pub mod numbers;
pub mod pi_bridge;
pub mod search;
pub mod text;
pub mod tool_cli;

pub use tool_cli::run_tool_cli;
