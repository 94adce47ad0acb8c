//! Verified core of a small business-assistant chat backend: identity
//! resolution across two login surfaces, three-layer context merging,
//! conversation management over an in-memory store model, and extraction of
//! structured table directives from free-form advisor output.

pub mod models;
pub mod context;
pub mod text;
pub mod store;
pub mod identity;
pub mod manager;
pub mod extract;
pub mod json;
pub mod i18n;
pub mod prompt;
pub mod files;
pub mod chat;
