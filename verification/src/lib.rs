//! The decisions of an HTTP reverse proxy: what is sent to the backend, what goes back to the
//! client, and when a switch of protocols is accepted.
//!
//! Nothing here opens a connection. `call` takes what has happened and says what to do next; the
//! functions that it rests on can be used by themselves.

pub mod call;
pub mod error;
pub mod forward;
pub mod header_map;
pub mod hop;
pub mod message;
pub mod proxy;
pub mod text;
pub mod upgrade;
pub mod uri;

pub use call::{call, CallAction, CallEvent, CallState};
pub use error::ProxyError;
pub use forward::forward_uri;
pub use hop::{hop_headers, remove_connection_headers, remove_hop_headers};
pub use message::{Request, Response};
pub use proxy::{create_proxied_request, create_proxied_request_with, create_proxied_response};
pub use upgrade::get_upgrade_type;
pub use uri::Uri;
