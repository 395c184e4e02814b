//! A small link shortener store, the request routing and response framing of a
//! static file server, and the work queue that feeds the server's worker pool.

pub mod cli;
pub mod http;
pub mod links;
pub mod queue;
pub mod words;
