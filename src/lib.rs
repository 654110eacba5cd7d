//! A caching reverse proxy core: routes requests by host, derives cache keys,
//! keeps short-lived responses and normalizes upstream headers.

pub mod text;
pub mod router;
pub mod cache_key;
pub mod cache;
pub mod json;
pub mod headers;
pub mod pipeline;
