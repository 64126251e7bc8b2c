//! Lets EVE Online pilots log in to Mumble with their EVE SSO identity: the
//! decisions of the login, callback and auth endpoints, the whitelist and
//! group rules, the picker page, and the caches of ESI answers.

pub mod auth;
pub mod cache;
pub mod codec;
pub mod config;
pub mod decimal;
pub mod error;
pub mod eve;
pub mod login;
pub mod password;
pub mod picker;
pub mod text;
pub mod whitelist;
