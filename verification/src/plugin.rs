//! The adapter as a plugin of the bot framework: its identity, and the
//! framework events it reacts to.
use vstd::prelude::*;

use crate::event::EventType;

verus! {

/// A plugin's version.
#[derive(Clone, Copy, Debug, PartialEq, Eq)]
pub struct Version {
    pub major: u32,
    pub minor: u32,
    pub patch: u32,
}

/// What kind of plugin a plugin is.
#[derive(Clone, Copy, Debug, PartialEq, Eq)]
pub enum PluginType {
    Adapter,
    Plugin,
}

/// The Telegram adapter plugin.
#[derive(Clone, Copy, Debug, PartialEq, Eq)]
pub struct TGAdapter;

impl TGAdapter {
    pub fn new() -> (r: TGAdapter) {
        TGAdapter
    }

    /// The plugin's name, which is also the name of its configuration directory.
    pub fn name(&self) -> (r: &'static str)
        ensures
            r@ == "TGAdapter"@,
    {
        "TGAdapter"
    }

    /// The plugin's version, 0.0.1.
    pub fn version(&self) -> (r: Version)
        ensures
            r == (Version { major: 0, minor: 0, patch: 1 }),
    {
        Version { major: 0, minor: 0, patch: 1 }
    }

    /// The plugin is an adapter.
    pub fn plugin_type(&self) -> (r: PluginType)
        ensures
            r == PluginType::Adapter,
    {
        PluginType::Adapter
    }

    /// Whether an event makes the adapter sync the Telegram command menu:
    /// plugins (and with them their commands) coming or going do.
    pub fn on_event(&self, event_type: &EventType) -> (r: bool)
        ensures
            r == (*event_type == EventType::PluginLoaded || *event_type
                == EventType::PluginUnloaded),
    {
        match event_type {
            EventType::PluginLoaded => true,
            EventType::PluginUnloaded => true,
            _ => false,
        }
    }
}

} // verus!
