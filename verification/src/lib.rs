//! A small verified HTTP/1.1 core: a wire codec that parses request heads and
//! serializes responses at the byte level, a router over method and path, a
//! set of pure handlers, a response-compression middleware, and the
//! per-connection decisions of the request/response cycle.
//!
//! All values on the wire are byte strings (`Vec<u8>` / `Seq<u8>`); the
//! contracts of the executable functions are stated over spec-level models of
//! the same data, and the laws of the pipeline are proved over those models.

pub mod bytes;
pub mod connection;
pub mod handler;
pub mod headers;
pub mod laws;
pub mod middleware;
pub mod request;
pub mod response;
pub mod router;
pub mod tokens;
