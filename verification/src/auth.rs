//! Token exchange: a one-time password or a live session cookie in, a fresh
//! session cookie out.

pub mod cookie;
pub mod error;
pub mod store;
pub mod token;
