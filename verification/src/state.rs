//! The adapter's shared state: the loaded configuration and the Telegram bot
//! handle, both absent until set and both cleared on reset.
use vstd::prelude::*;

use crate::config::{admin_texts, is_admin_spec, Config};
use crate::text::{clone_opt, opt_view};

verus! {

/// The state that the plugin lifecycle and the adapter share.
pub struct AdapterState<B> {
    config: Option<Config>,
    bot: Option<B>,
}

impl<B> AdapterState<B> {
    /// The configuration currently held.
    pub closed spec fn current_config(&self) -> Option<Config> {
        self.config
    }

    /// The bot handle currently held.
    pub closed spec fn current_bot(&self) -> Option<B> {
        self.bot
    }

    /// A state with neither configuration nor bot.
    pub fn new() -> (s: Self)
        ensures
            s.current_config() is None,
            s.current_bot() is None,
    {
        AdapterState { config: None, bot: None }
    }

    /// Stores the configuration, replacing any earlier one.
    pub fn set_config(&mut self, config: Config)
        ensures
            final(self).current_config() == Some(config),
            final(self).current_bot() == old(self).current_bot(),
    {
        self.config = Some(config);
    }

    /// The bot token and API URL of the stored configuration, if any.
    pub fn config_snapshot(&self) -> (r: Option<(String, Option<String>)>)
        ensures
            match self.current_config() {
                Some(c) => r matches Some(p) && p.0@ == c.bot_token@ && opt_view(p.1) == opt_view(
                    c.api_url,
                ),
                None => r is None,
            },
    {
        match &self.config {
            Some(config) => Some((config.bot_token.clone(), clone_opt(&config.api_url))),
            None => None,
        }
    }

    /// Whether `user_id` is given and is an admin of the stored configuration.
    pub fn is_configured_admin(&self, user_id: Option<&str>) -> (r: bool)
        ensures
            r == (user_id matches Some(u) && self.current_config() matches Some(c)
                && is_admin_spec(c.admins@, u@)),
    {
        let Some(user_id) = user_id else {
            return false;
        };
        match &self.config {
            Some(config) => config.is_admin(user_id),
            None => false,
        }
    }

    /// The ids of the configured admins, or none without a configuration.
    pub fn admin_ids(&self) -> (r: Vec<String>)
        ensures
            match self.current_config() {
                Some(c) => r@.map_values(|s: String| s@) == admin_texts(c.admins@),
                None => r@.len() == 0,
            },
    {
        match &self.config {
            Some(config) => config.admin_ids(),
            None => Vec::new(),
        }
    }

    /// Stores the bot handle, replacing any earlier one.
    pub fn set_telegram_bot(&mut self, bot: B)
        ensures
            final(self).current_bot() == Some(bot),
            final(self).current_config() == old(self).current_config(),
    {
        self.bot = Some(bot);
    }

    /// The stored bot handle, if any.
    pub fn telegram_bot(&self) -> (r: Option<&B>)
        ensures
            match r {
                Some(b) => self.current_bot() == Some(*b),
                None => self.current_bot() is None,
            },
    {
        match &self.bot {
            Some(b) => Some(b),
            None => None,
        }
    }

    /// Forgets both the bot handle and the configuration.
    pub fn reset(&mut self)
        ensures
            final(self).current_bot() is None,
            final(self).current_config() is None,
    {
        self.bot = None;
        self.config = None;
    }
}

} // verus!
