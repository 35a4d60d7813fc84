//! A relay that bridges a client's socket session to an upstream
//! server-sent-event endpoint. The decisions of the relay live here, each
//! with its contract; the sockets and the HTTP stream are driven by the caller.
pub mod allow;
pub mod bridge;
pub mod config;
pub mod headers;
pub mod message;
pub mod session;
pub mod upstream;
