//! Client-side logic for the stagbin paste service: expiry-string parsing,
//! construction of the JSON upload request body, and decoding of the
//! service's upload and retrieval responses.

pub mod expiry;
pub mod jsonfmt;
pub mod jsonval;
pub mod request;
pub mod response;
