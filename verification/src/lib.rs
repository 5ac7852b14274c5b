//! The decisions of a Telegram bot that sells access to channels, verified.
//!
//! The library takes what was read (files, settings, messages, answers of the payment
//! service) as plain values and returns what is to be written and done. Contracts speak
//! of mathematical models: texts are sequences of characters, JSON values are
//! [`json::JsonView`]s, keyboards and plans of actions are what `deep_view` makes of
//! them. Laws that relate several functions stand as public proof functions beside them.

pub mod actions;
pub mod admin;
pub mod bot;
pub mod callbacks;
pub mod catalog;
pub mod catalog_folders;
pub mod channels;
pub mod checks;
pub mod dates;
pub mod export;
pub mod free_users;
pub mod greeting;
pub mod history;
pub mod json;
pub mod keyboard;
pub mod ledger;
pub mod links;
pub mod listing;
pub mod numbers;
pub mod paging;
pub mod payments;
pub mod pruning;
pub mod reminders;
pub mod selection;
pub mod sorting;
pub mod state;
pub mod subscribers;
pub mod sync_history;
pub mod text;
pub mod user_forward;
