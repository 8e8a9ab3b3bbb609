use tg_adapter::config::{AdminId, Config, DEFAULT_CONFIG};

fn config_with_admins() -> Config {
    // bot_token = "token", admins = ["42", 77]
    Config {
        bot_token: "token".to_string(),
        api_url: None,
        admins: vec![AdminId::String("42".to_string()), AdminId::Integer(77)],
    }
}

#[test]
fn config_accepts_string_and_numeric_admin_ids() {
    let config = config_with_admins();

    assert!(config.is_admin("42"));
    assert!(config.is_admin("77"));
    assert!(!config.is_admin("11"));
}

#[test]
fn admin_ids_returns_all_configured_ids_as_strings() {
    let config = config_with_admins();

    assert_eq!(config.admin_ids(), vec!["42".to_string(), "77".to_string()]);
}

#[test]
fn admin_ids_is_empty_when_no_admins() {
    // bot_token = "token"
    let config = Config { bot_token: "token".to_string(), api_url: None, admins: Vec::new() };
    assert!(config.admin_ids().is_empty());
}

#[test]
fn numeric_admin_matches_only_its_canonical_rendering() {
    let admin = AdminId::Integer(77);
    assert!(admin.matches("77"));
    assert!(!admin.matches("077"));
    assert!(!admin.matches("+77"));
    assert!(AdminId::Integer(-5).matches("-5"));
    assert!(AdminId::Integer(i64::MIN).matches("-9223372036854775808"));
    assert!(AdminId::String("abc".to_string()).matches("abc"));
    assert!(!AdminId::String("abc".to_string()).matches("ab"));
}

#[test]
fn admin_check_agrees_with_listed_ids() {
    let config = Config {
        bot_token: "t".to_string(),
        api_url: Some("https://example.org".to_string()),
        admins: vec![AdminId::Integer(0), AdminId::String("x y".to_string())],
    };
    let ids = config.admin_ids();
    assert_eq!(ids, vec!["0".to_string(), "x y".to_string()]);
    for id in &ids {
        assert!(config.is_admin(id));
    }
    assert!(!config.is_admin("x"));
}

#[test]
fn default_config_names_the_token_placeholder() {
    assert!(DEFAULT_CONFIG.contains("bot_token = \"YOUR_BOT_TOKEN_HERE\""));
    assert!(DEFAULT_CONFIG.contains("admins = []"));
}
