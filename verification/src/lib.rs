//! Verified core of an order orchestration service: order assembly with
//! immutable pricing, a pending/placed/rejected lifecycle with a timeout
//! window, idempotent projection of foreign reference data from events,
//! at-most-once compensation, and a canonical event-data codec.

pub mod authentication;
pub mod codec;
pub mod errors;
pub mod event_service;
pub mod external;
pub mod foreign_types;
pub mod ids;
pub mod money;
pub mod mutation;
pub mod mutation_input_structs;
pub mod order;
pub mod order_compensation;
pub mod order_datatypes;
pub mod order_item;
pub mod payment_authorization;
pub mod projection;
pub mod query;
