use tg_adapter::commands::{is_valid_tg_command, partition_commands, sync_commands, numeric_chat_ids};
use tg_adapter::config::{AdminId, Config};
use tg_adapter::event::{CommandSpec, CommandVisibility};
use tg_adapter::state::AdapterState;

fn spec(name: &str, visibility: CommandVisibility) -> CommandSpec {
    CommandSpec {
        name: name.to_string(),
        aliases: Vec::new(),
        description: format!("{name} description"),
        visibility,
    }
}

#[test]
fn validates_telegram_command_names() {
    assert!(is_valid_tg_command("plugin"));
    assert!(is_valid_tg_command("id"));
    assert!(is_valid_tg_command("a_b9"));
    assert!(!is_valid_tg_command(""));
    assert!(!is_valid_tg_command("Plugin")); // uppercase
    assert!(!is_valid_tg_command("9start")); // must start with a letter
    assert!(!is_valid_tg_command("has space"));
    assert!(!is_valid_tg_command(&"x".repeat(33))); // too long
}

#[test]
fn partitions_commands_by_visibility() {
    let specs = vec![
        spec("id", CommandVisibility::Public),
        spec("plugin", CommandVisibility::Admin),
        spec("secret", CommandVisibility::Hidden),
    ];
    let menu = partition_commands(&specs);

    let default_names: Vec<_> = menu.default.iter().map(|c| c.command.clone()).collect();
    let admin_names: Vec<_> = menu.admin.iter().map(|c| c.command.clone()).collect();

    assert_eq!(default_names, vec!["id"]);
    // Admin scope replaces (not merges with) the default list, so it must
    // include the public commands plus the admin-only ones.
    assert_eq!(admin_names, vec!["id", "plugin"]);
    assert!(!admin_names.contains(&"secret".to_string())); // Hidden excluded everywhere
}

#[test]
fn skips_invalid_command_names() {
    let specs = vec![
        spec("Bad", CommandVisibility::Public),
        spec("good", CommandVisibility::Public),
    ];
    let menu = partition_commands(&specs);
    let names: Vec<_> = menu.default.iter().map(|c| c.command.clone()).collect();
    assert_eq!(names, vec!["good"]);
}

#[test]
fn command_name_length_limits() {
    assert!(is_valid_tg_command(&"x".repeat(32)));
    assert!(is_valid_tg_command("a"));
    assert!(!is_valid_tg_command("_start"));
    assert!(!is_valid_tg_command("caf\u{e9}"));
}

#[test]
fn menu_entries_keep_descriptions_and_order() {
    let specs = vec![
        spec("zeta", CommandVisibility::Admin),
        spec("alpha", CommandVisibility::Public),
        spec("Beta", CommandVisibility::Admin),
        spec("gamma", CommandVisibility::Public),
    ];
    let menu = partition_commands(&specs);
    let default: Vec<_> = menu.default.iter().map(|c| (c.command.as_str(), c.description.as_str())).collect();
    let admin: Vec<_> = menu.admin.iter().map(|c| c.command.as_str()).collect();
    assert_eq!(default, vec![("alpha", "alpha description"), ("gamma", "gamma description")]);
    assert_eq!(admin, vec!["zeta", "alpha", "gamma"]);
}

#[test]
fn numeric_admin_ids_become_chat_ids() {
    let ids = vec!["42".to_string(), "bob".to_string(), "-100123".to_string(), "+7".to_string(), "".to_string()];
    assert_eq!(numeric_chat_ids(&ids), vec![42, -100123, 7]);
}

#[test]
fn sync_waits_for_the_bot() {
    let mut state: AdapterState<u8> = AdapterState::new();
    let specs = vec![spec("id", CommandVisibility::Public)];
    assert!(sync_commands(&state, &specs).is_none());

    state.set_config(Config {
        bot_token: "token".to_string(),
        api_url: None,
        admins: vec![AdminId::String("alice".to_string()), AdminId::Integer(77), AdminId::String("12".to_string())],
    });
    assert!(sync_commands(&state, &specs).is_none());

    state.set_telegram_bot(1);
    let plan = sync_commands(&state, &specs).unwrap();
    assert_eq!(plan.admin_chats, vec![77, 12]);
    assert_eq!(plan.menu.default.len(), 1);
    assert_eq!(plan.menu.admin.len(), 1);
}
