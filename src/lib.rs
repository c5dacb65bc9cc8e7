//! An HTTP/2 stream adapter: per-stream payload channels, response-head
//! normalisation, request reconstruction from pseudo-headers, and the typed
//! header values that responses carry (`Age`, `Cache-Control`, `Quality`).
pub mod text;
pub mod duration;
pub mod caching;
pub mod headers;
pub mod response;
pub mod payload;
pub mod publish;
pub mod emit;
pub mod quality;
