//! Core of a fleet-management control plane: the framed wire protocol, the
//! challenge-response authenticator, the command-validation policy, the
//! in-memory fleet registry, the command lifecycle tracker, and the
//! per-connection protocol engine that drives them.
pub mod client;
pub mod codec;
pub mod collection;
pub mod command_results;
pub mod config;
pub mod ext;
pub mod handle_socket;
pub mod model;
pub mod security;
pub mod shared_data;
pub mod smap;
pub mod strutil;
pub mod tcp_auth;
pub mod web;
