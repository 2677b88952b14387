//! Authentication core of a small catalog service: password hashing,
//! signed session tokens, the per-request identity guard, and the
//! sign-up / sign-in flows over a credential store.

pub mod api;
pub mod claims;
pub mod config;
pub mod decimal;
pub mod guard;
pub mod password;
pub mod service;
pub mod token;
