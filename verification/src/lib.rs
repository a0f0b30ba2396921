//! Verified core of a generic, bidirectional Matrix bridge.

pub mod text;
pub mod platform;
pub mod config;
pub mod registration;
pub mod message;
pub mod auth;
pub mod net;
pub mod webhook;
pub mod ws;
pub mod media;
pub mod matrix_content;
pub mod dispatch;
pub mod media_flow;
pub mod attachment;
pub mod platform_events;
pub mod error;
pub mod api;
pub mod transactions;
pub mod laws;
pub mod bridge;
pub mod crypto_ids;
pub mod sorted;
