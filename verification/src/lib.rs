//! Membership roster tracking for a group-chat mention bot.
//!
//! The crate keeps, per chat, the set of users that count as members for
//! broadcast purposes, decides from incoming chat events whether a user
//! record is upserted or removed, splits a chat's member list into capped
//! mention batches, and classifies and parses the bot's text commands.

pub mod commands;
pub mod config;
pub mod paginate;
pub mod reconcile;
pub mod store;
pub mod text;
pub mod types;
