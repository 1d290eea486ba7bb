//! The request-handling core of a small social-network service: a
//! middleware-chained dispatcher over an in-memory typed store, with a
//! denormalized interaction ledger (likes, dislikes, views, replies,
//! reposts) whose counters provably stay in step with the rows they
//! summarize, and content identity resolved across repost chains at read
//! time.

pub mod controllers;
pub mod forms;
pub mod layers;
pub mod listing;
pub mod markdown;
pub mod models;
pub mod resolve;
pub mod router;
pub mod store;
pub mod text;
mod trusted;
pub mod web;
