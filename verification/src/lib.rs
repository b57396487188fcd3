//! In-process metrics core: a counter/histogram/gauge registry that
//! instrumented operations report into, a renderer for the text exposition
//! format, and the request dispatch for a local scrape endpoint.
//!
//! The host process owns the I/O: it reads configuration from its
//! environment, holds the registry in a process-wide cell, and runs the
//! HTTP accept loop, feeding each request path to [`server::handle_request`].

pub mod config;
pub mod metrics;
pub mod render;
pub mod server;
pub mod text;
