//! A durable record store for a single entity type ("Message"): a
//! monotonically increasing identifier allocator plus an ordered durable map
//! from identifier to encoded record, with a fixed-upper-bound codec and a
//! CRUD service on top.
pub mod codec;
pub mod model;
pub mod service;
pub mod store;

pub use model::Message;
pub use model::MessagePayload;
