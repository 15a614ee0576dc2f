//! Core logic of a multi-vendor chat client: a vendor-neutral message model,
//! per-vendor request construction, retry and token-cache policies, and the
//! incremental decoders that turn each vendor's streaming wire format into a
//! uniform sequence of text fragments.

pub mod message;
pub mod text;
pub mod sse;
pub mod snapshot;
pub mod errors;
pub mod retry;
pub mod token_cache;
pub mod json_render;
pub mod request;
pub mod openai;
pub mod anthropic;
pub mod google;
pub mod cli;
pub mod secrets;
pub mod config;
pub mod logger;
