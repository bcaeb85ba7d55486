//! Core of a local DNS-over-HTTPS forwarder: the decisions behind the
//! cache, the response decoder, the remote session and the path of a query,
//! each with a contract that Verus proves.

pub mod cache;
pub mod config;
pub mod context;
pub mod dns;
pub mod error;
pub mod handler;
pub mod host;
pub mod listen;
pub mod logger;
pub mod message;
pub mod remote_host;
pub mod response;
pub mod session;
pub mod text;

pub use cache::Cache;
pub use config::Config;
pub use context::Context;
pub use error::Error;
pub use host::Host;
pub use listen::get_listen_config;
pub use remote_host::get_remote_host;
pub use remote_host::RemoteHostError;
