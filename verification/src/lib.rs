//! Decision logic of a caching DNS forwarder that keeps answering from its
//! local database when the network is gone.
pub mod storage;
pub mod text;
pub mod names;
pub mod wire;
pub mod resolver;
pub mod handler;
pub mod ipv4;
pub mod api;
