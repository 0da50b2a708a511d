//! Decision logic of a dynamic-DNS updater: which hosted zone a domain name
//! belongs to, which domains still need their address record published, and
//! what a reconciliation pass does next after each outcome.

pub mod domain;
pub mod ip;
pub mod reconcile;
pub mod tracker;
pub mod zone;
