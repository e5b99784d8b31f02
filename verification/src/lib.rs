//! The deciding core of a static file server that answers over TLS (HTTP/1.1
//! and HTTP/2) and over QUIC (HTTP/3) on one port number.
//!
//! Nothing here opens a socket or a file. Each listener, each connection and
//! each request is a small state machine: its driver performs the action that
//! the machine names and reports what happened as the next event.

pub mod credential;
pub mod data;
pub mod h2;
pub mod h3;
pub mod orchestrator;
pub mod service;
pub mod trusted;
