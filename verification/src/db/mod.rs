//! The chat store: record shapes, and the logic around the database calls.
pub mod client;
pub mod schema;
