//! A newsletter-delivery library whose core is an idempotent command
//! processor and a durable, retrying delivery queue, both modelled over an
//! explicit store that stands for the shared relational database.


pub mod authentication;
pub mod configuration;
pub mod delivery;
pub mod domain;
pub mod expiry;
pub mod idempotency;
pub mod idempotency_key;
pub mod login;
pub mod newsletters;
pub mod response;
pub mod startup;
pub mod store;
pub mod subscriptions;
pub mod subscriptions_confirm;
