//! Encoding of HTTP/1.x request and response header sections into a
//! capacity-bounded byte buffer.
//!
//! Every function that writes states, over byte sequences, exactly which
//! bytes it appends and exactly when it runs out of room.

pub mod builder;
pub mod crlf;
pub mod decimal;
pub mod errors;
pub mod fold;
pub mod header;
pub mod method;
pub mod search;
pub mod sink;
pub mod status;
pub mod token;
pub mod uri;
pub mod version;
pub mod writable;

pub use crate::builder::{request, response, HttpBuilder};
pub use crate::crlf::{find_unquoted_crlf, UnquotedCRLFIterator};
pub use crate::decimal::{ilog10, reverse};
pub use crate::errors::{
    InsufficientSpaceError, InvalidHeaderError, InvalidMethodError, InvalidUriError,
};
pub use crate::header::{CheckedField, CheckedValue, Header};
pub use crate::method::Method;
pub use crate::sink::Sink;
pub use crate::status::Status;
pub use crate::token::is_token;
pub use crate::uri::{validate_uri, Uri};
pub use crate::version::Version;
pub use crate::writable::HttpWriteable;
