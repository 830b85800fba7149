//! A static-file HTTP responder: request routing and response assembly.
//!
//! The crate turns the bytes of one request into a [`HttpResponse`]
//! descriptor and a descriptor into the bytes sent back, and holds the
//! job queue that a worker pool shares. Reading files, sockets and
//! threads are left to the caller.

pub mod text;
pub mod address;
pub mod codec;
pub mod response;
pub mod request;
pub mod config;
pub mod queue;

pub use config::{ConfigError, ServerConfig};
pub use queue::{Claim, JobQueue};
pub use request::{normalize_path, parse_request, Header, ParseError, ParsedRequest};
pub use response::HttpResponse;
