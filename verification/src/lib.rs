//! A transcoding filter for the request bodies of a forward HTTP proxy.
//!
//! For each request the filter decides once, from the headers, whether the
//! body is to be compressed or decompressed; it rewrites the headers so that
//! the framing fits the body that will be sent; and it takes the body
//! through the codec chunk by chunk.
pub mod buffer;
pub mod clock;
pub mod compress;
pub mod config;
pub mod error;
pub mod format;
pub mod gzip;
pub mod headers;
pub mod proxy;
pub mod transcript;
pub mod zstd_stream;
