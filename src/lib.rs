//! Newsletter delivery: a durable, retrying task queue that fans an issue out to
//! its confirmed subscribers, together with the small pieces of configuration and
//! request validation around it.
use vstd::prelude::*;

pub mod configuration;
pub mod delivery_queue;
pub mod domain;
pub mod email_client;
pub mod guarantees;
pub mod routes;
pub mod issue_delivery_worker;

verus! {

} // verus!
