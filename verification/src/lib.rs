//! A small asset-loading library: given the bytes of a textual
//! object-notation document, produce a validated record with one text
//! field, or a classified error. The document grammar, the parser and
//! the error classification are specified and verified here; reading
//! the bytes from their source is the caller's concern.

pub mod events;
pub mod grammar;
pub mod laws;
pub mod loader;
pub mod record;
