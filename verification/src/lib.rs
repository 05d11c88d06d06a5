//! A minimal HTTP/1.1 request engine: byte-level request parsing, a fixed
//! route table (`/`, `/echo/<payload>`, `/user-agent`, `/files/<name>`),
//! handler response construction, and wire serialization.
//!
//! The library works on plain byte sequences and is free of effects. All
//! socket and filesystem work lives outside: callers hand in the bytes
//! read from a connection, receive either a finished response or a file
//! action, carry the action out, and turn its outcome into a response
//! with the builders here. Every function's behaviour is stated against a
//! spec-level model of the wire grammar and proved.

pub mod bytes;
pub mod laws;
pub mod num;
pub mod request;
pub mod response;
pub mod router;
pub mod server;
