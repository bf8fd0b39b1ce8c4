//! Request/response messaging over a named local stream endpoint.
//!
//! One request and one response travel over each connection. The library
//! holds everything that is decided along the way and nothing that touches
//! a socket: how a request is laid out in bytes and found again in a
//! stream, what a server does with each thing that happens on a
//! connection, and what a client makes of the bytes that come back.

pub mod client;
pub mod connection;
pub mod framer;
pub mod laws;
pub mod monitor;
pub mod server;
pub mod stream;
pub mod text;
pub mod wire;

pub use crate::client::{receive, SendError};
pub use crate::connection::{Closing, ConnAction, ConnEvent, Connection, Phase};
pub use crate::framer::{FrameError, Framing};
pub use crate::monitor::SockMonitor;
pub use crate::server::{ServeAction, ServeError, ServeEvent, ServePhase, Server};
pub use crate::stream::ByteStream;
