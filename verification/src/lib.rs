//! Core of a newsletter service: an idempotency cache that makes a
//! side-effecting publish request safe to retry, and a durable work-queue
//! delivery worker that drains per-subscriber send tasks.
//!
//! The durable store is modelled as an explicit value with transactional
//! writes; the surrounding process (HTTP plumbing, SQL driver, SMTP client)
//! drives these functions and performs the I/O they decide on.
use vstd::prelude::*;

pub mod configuration;
pub mod domain;
pub mod external;
pub mod idempotency;
pub mod issue_delivery_worker;
pub mod newsletter;
pub mod response;
pub mod store;
pub mod subscriptions;

verus! {

/// Largest number of characters an idempotency key may have.
pub const IDEMPOTENCY_KEY_MAX_LEN: usize = 50;

} // verus!
