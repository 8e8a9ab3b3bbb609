//! Telegram adapter logic for the Shinobu bot framework: command menus, the
//! adapter's configuration and state, the conversion of incoming Telegram
//! updates into framework events, and the planning of outgoing messages.
pub mod commands;
pub mod config;
pub mod convert;
pub mod decimal;
pub mod dispatcher;
pub mod event;
pub mod external;
pub mod outgoing;
pub mod plugin;
pub mod state;
pub mod telegram;
pub mod text;
