//! A personal publishing platform's content pipeline: post parsing,
//! markdown rendering, snapshot assembly, and a concurrently readable
//! post store with atomic snapshot replacement.

pub mod builder;
pub mod debounce;
pub mod header;
pub mod render;
pub mod response;
pub mod snapshot;
pub mod source;
pub mod store;
pub mod text;
