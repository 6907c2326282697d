//! Verified core of the Kanade CI service: the status model of pipelines,
//! jobs and steps, the webhook intake, the secret store, the forge
//! integration, the realtime channels, and the agent's polling, reporting
//! and log batching rules.

pub mod status;
pub mod lifecycle;
pub mod text;
pub mod codec;
pub mod crypto;
pub mod webhook;
pub mod listing;
pub mod error;
pub mod forge;
pub mod auth;
pub mod agent;
pub mod config;
pub mod realtime;
