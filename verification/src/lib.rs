//! planpool: a small pool of expiring static HTML plans.
//!
//! This crate holds the decisions and text handling of the planpool server
//! and of its `pp` client: what a plan ID is, how plans expire, which
//! requests are admitted, how plan URLs are built and taken apart.

pub mod api;
pub mod cli;
pub mod client;
pub mod config;
pub mod id;
pub mod store;
pub mod text;
pub mod types;
