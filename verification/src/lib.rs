//! The decision logic of a streaming-provider gateway: cache keys and cache
//! bookkeeping for debrid and usenet services, and the OAuth and device-code
//! exchanges with their providers.

pub mod debrid_cache;
pub mod device_auth;
pub mod exchange;
pub mod json;
pub mod outside;
pub mod premiumize;
pub mod text;
pub mod usenet_cache;
