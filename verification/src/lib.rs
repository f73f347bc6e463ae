//! The transcoding and delivery core of a music-streaming gateway.
//!
//! A live feed of 16-bit stereo PCM is cut into the fixed chunks and frames
//! that a resampler and an Opus encoder take (`framing`, `pipeline`), and
//! the encoder's packets are muxed into an Ogg/Opus byte stream that can be
//! delivered as it grows (`headers`, `pages`, `opus`). At most one stream
//! plays at a time (`session`), and what the metadata provider has
//! answered is remembered (`cache`). Around these stand the decisions of
//! the request handlers (`routes`), signing in (`auth`, `rate_limit`), the
//! configuration (`cfg`) and the values of the responses (`json`).
//!
//! Resampling, encoding and everything that waits on the network are the
//! caller's part; this library decides and keeps the books.

pub mod auth;
pub mod cache;
pub mod cfg;
pub mod consts;
pub mod framing;
pub mod headers;
pub mod json;
pub mod opus;
pub mod pages;
pub mod pipeline;
pub mod rate_limit;
pub mod routes;
pub mod session;
pub mod text;
