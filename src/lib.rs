//! An HTTP client core: a per-client cookie jar keyed by name, domain and
//! path, the decisions of the request pipeline on each side of the
//! transport call, and the checks on the text that crosses the wire.
pub mod jar;
pub mod wire;
pub mod pipeline;
pub mod client;
pub mod builder;

pub use builder::{RequestBuilder, RequestMethod};
pub use client::Client;
pub use jar::{CookieJar, StoredCookie};
pub use pipeline::ClientError;
