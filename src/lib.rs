//! Session, role and visibility core of a small forum.

pub mod auth;
pub mod configuration;
pub mod cookie;
pub mod credential;
pub mod error;
pub mod filter;
pub mod forum;
pub mod handlers;
pub mod primitives;
pub mod role;
pub mod session;
pub mod session_store;
pub mod users;
pub mod visibility;
