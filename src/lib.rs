//! A configuration-driven chat responder: the configuration model, the
//! resolution of inbound events into outbound actions, and the per-connection
//! session that runs the one-time bootstrap.
pub mod config;
pub mod resolve;
pub mod session;
pub mod text;
