//! A static-file response engine: traversal-safe path resolution, HTTP
//! conditional-request evaluation, weak entity tags, media type lookup and a
//! bounded chunk streamer, each with a proved contract.
pub mod path;
pub mod conditional;
pub mod media;
pub mod stream;
pub mod handler;
