//! Guild-scoped automation router: trigger classification and matching,
//! event routing decisions, per-guild rule storage, authorization and
//! output planning for a chat platform bot.
pub mod text;
pub mod match_engine;
pub mod events;
pub mod triggers;
pub mod triggermanager;
pub mod auth;
pub mod render;
pub mod router;
pub mod commands;
