//! A bridge between HTTP request/response traffic and a delay-tolerant,
//! endpoint-addressed bundle transport.
//!
//! The forward direction turns an HTTP request into one outbound bundle; the
//! reverse direction turns an inbound bundle into an HTTP request for a local
//! handler and the handler's response into the reply bundle. Socket handling,
//! the transport connection and the local handler live outside this library,
//! which decides what is sent, to whom, and what is answered.

pub mod bundle;
pub mod codec;
pub mod config;
pub mod content;
pub mod eid;
pub mod error;
pub mod message;
pub mod proxy;
pub mod resolver;
pub mod server;
pub mod text;

pub use codec::from_http;
pub use proxy::Proxy;
pub use resolver::get_target_eid;
pub use server::Server;
