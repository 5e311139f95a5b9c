//! Content lifecycle engine for a small publishing system: pages and
//! articles with a status state machine, append-only revision history,
//! unique slugs, a retention policy for trashed items and a periodic
//! maintenance step, together with the catalogue rules around them.

pub mod api;
pub mod auth;
pub mod config;
pub mod db;
pub mod error;
pub mod helpers;
pub mod ids;
pub mod media;
pub mod policy;
pub mod proxy;
pub mod services;
pub mod sorting;
pub mod tasks;
pub mod text;
