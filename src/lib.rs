//! A process-local message relay: the wire codec, the routing pools and the
//! per-connection decisions of a server that bridges "send" connections to
//! "receive" connections by alias.

pub mod error;
pub mod handler;
pub mod pool;
pub mod protocol;
pub mod pto;
pub mod response;
pub mod server;
pub mod text;
