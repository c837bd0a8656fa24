pub mod admin;
pub mod api;
pub mod config;
pub mod domain;
pub mod engine;
pub mod error;
pub mod executor;
pub mod metrics;
pub mod retry;
pub mod store;
pub mod text;
