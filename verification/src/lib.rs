//! Core engine of a music/video download manager: it resolves user-supplied
//! URLs into provider references, converts provider metadata into a canonical
//! data model, queues download requests for a bounded pool of per-provider
//! workers, expands album/playlist requests into per-track operations, and
//! maps worker progress into the consumer-facing event stream.

pub mod catalog;
pub mod config;
pub mod downloader;
pub mod events;
pub mod fanout;
pub mod models;
pub mod numbers;
pub mod resolver;
pub mod sanitize;
pub mod text;
