//! Decision logic of a terminal log viewer for Cloudflare Workers: the
//! application state machine behind the TUI, the status filters and
//! statistics, the tail-filter construction, the configuration defaults and
//! the text that the views and error reports show.

pub mod api;
pub mod app;
pub mod config;
pub mod filters;
pub mod highlight;
pub mod json;
pub mod render;
pub mod text;
pub mod types;
