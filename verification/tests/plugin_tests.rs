use tg_adapter::event::EventType;
use tg_adapter::plugin::{PluginType, TGAdapter, Version};

#[test]
fn plugin_identity() {
    let p = TGAdapter::new();
    assert_eq!(p.name(), "TGAdapter");
    assert_eq!(p.version(), Version { major: 0, minor: 0, patch: 1 });
    assert_eq!(p.plugin_type(), PluginType::Adapter);
}

#[test]
fn plugin_lifecycle_events_trigger_command_sync() {
    let p = TGAdapter::new();
    assert!(p.on_event(&EventType::PluginLoaded));
    assert!(p.on_event(&EventType::PluginUnloaded));
    assert!(!p.on_event(&EventType::Message));
    assert!(!p.on_event(&EventType::Other("PluginLoaded".to_string())));
}
