//! Darb: the decision core of a terminal coding assistant.
pub mod agent;
pub mod config;
pub mod context;
pub mod errors;
pub mod events;
pub mod json;
pub mod order;
pub mod permissions;
pub mod text;
pub mod textmap;
pub mod tomldoc;
pub mod tools;
pub mod i18n;
pub mod tui;
pub mod memory;
pub mod providers;
