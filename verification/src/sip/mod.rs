//! SIP protocol: messages, their parts, and the wire codec.

pub mod framing;
pub mod header;
pub mod message;
pub mod method;
pub mod parser;
pub mod response;
pub mod round_trip;
pub mod uri;

pub use header::{Header, HeaderName, HeaderValue, Via};
pub use message::{Message, Request, Response};
pub use method::Method;
pub use response::StatusCode;
pub use uri::Uri;
