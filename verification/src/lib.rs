//! Bootstrap and authentication core of a small relational-data server.
//!
//! Two protocols live here, both written as pure decision procedures that a
//! thin driver runs against the embedded SQL store:
//!
//! * [`metadata`] brings the store to a known schema version by applying the
//!   migration units that its ledger has not seen yet, oldest first;
//! * [`auth`] exchanges a one-time password, or a session cookie that is
//!   still valid, for a fresh session token bound to an HTTP cookie.

pub mod auth;
pub mod metadata;
pub mod search;
