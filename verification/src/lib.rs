//! Policy layer that sits in front of DNS resolution: per query it blocks a
//! name or a zone, substitutes a synthetic answer, hands the query to an
//! upstream resolver, or rewrites an upstream answer for NAT64 clients.

pub mod authority;
pub mod blockset;
pub mod catalog;
pub mod client;
pub mod config;
pub mod error;
pub mod index;
pub mod ip;
pub mod name;
pub mod record;
pub mod server;
pub mod text;
