//! Core logic of a voice-bot media orchestrator: extractor acquisition,
//! content-addressed download caching, the durable per-guild playback
//! queue, and the voice-session reconciler, with the rules of each stated
//! as contracts.

pub mod acquire;
pub mod api_types;
pub mod auth;
pub mod bridge;
pub mod cache;
mod clock;
pub mod connections;
pub mod download;
pub mod errors;
pub mod metadata;
pub mod metrics;
pub mod progress;
pub mod queue;
pub mod reconcile;
pub mod session;
pub mod text;
