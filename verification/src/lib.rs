//! The decisions behind a block explorer's REST interface: which requests are
//! refused, which questions a request leads to, and what is replied.
//!
//! Storage, the watcher of Ethereum and the HTTP server stand outside. The
//! library says which work it needs of them, takes what came of it as an
//! argument, and is verified for every value of it.

pub mod accounts;
pub mod address;
pub mod blocks;
pub mod handling;
pub mod hex_text;
pub mod history;
pub mod json;
pub mod reply;
#[allow(unused_imports)]
pub mod requests;
pub mod routes;
pub mod sorting;
pub mod status;
pub mod tokens;
pub mod transactions;
