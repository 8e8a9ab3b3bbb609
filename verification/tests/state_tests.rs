use tg_adapter::config::{AdminId, Config};
use tg_adapter::state::AdapterState;

fn config(token: &str, api_url: Option<&str>) -> Config {
    Config {
        bot_token: token.to_string(),
        api_url: api_url.map(str::to_string),
        admins: vec![AdminId::Integer(42), AdminId::String("abc".to_string())],
    }
}

#[test]
fn state_starts_empty() {
    let state: AdapterState<String> = AdapterState::new();
    assert_eq!(state.config_snapshot(), None);
    assert!(state.telegram_bot().is_none());
    assert!(!state.is_configured_admin(Some("42")));
    assert!(state.admin_ids().is_empty());
}

#[test]
fn config_reads_back_what_was_set() {
    let mut state: AdapterState<String> = AdapterState::new();
    state.set_config(config("t1", Some("http://x")));
    assert_eq!(state.config_snapshot(), Some(("t1".to_string(), Some("http://x".to_string()))));
    state.set_config(config("t2", None));
    assert_eq!(state.config_snapshot(), Some(("t2".to_string(), None)));
    assert!(state.is_configured_admin(Some("42")));
    assert!(state.is_configured_admin(Some("abc")));
    assert!(!state.is_configured_admin(Some("43")));
    assert!(!state.is_configured_admin(None));
    assert_eq!(state.admin_ids(), vec!["42".to_string(), "abc".to_string()]);
}

#[test]
fn bot_and_config_are_independent_until_reset() {
    let mut state: AdapterState<String> = AdapterState::new();
    state.set_telegram_bot("bot".to_string());
    assert_eq!(state.config_snapshot(), None);
    state.set_config(config("t", None));
    assert_eq!(state.telegram_bot(), Some(&"bot".to_string()));
    state.reset();
    assert!(state.telegram_bot().is_none());
    assert_eq!(state.config_snapshot(), None);
    assert!(!state.is_configured_admin(Some("42")));
}
