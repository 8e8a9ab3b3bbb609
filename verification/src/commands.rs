//! The Telegram command menu: which registered commands Telegram accepts,
//! and which of them are shown to everyone and which to admins.
use vstd::prelude::*;

use crate::config::admin_texts;
use crate::decimal::{is_digit, parse_i64, parse_i64_spec};
use crate::event::{CommandSpec, CommandVisibility};
use crate::state::AdapterState;

verus! {

broadcast use vstd::seq_lib::group_seq_properties;

/// A command as Telegram's menu shows it.
#[derive(Clone, Debug, PartialEq, Eq)]
pub struct BotCommand {
    pub command: String,
    pub description: String,
}

/// Commands grouped by the Telegram scope they belong in.
///
/// `default` is shown to everyone: public commands only. `admin` is shown to
/// each admin in their private chat: public and admin commands, since a
/// chat-scoped list replaces the default list for that chat.
#[derive(Clone, Debug, PartialEq, Eq)]
pub struct MenuCommands {
    pub default: Vec<BotCommand>,
    pub admin: Vec<BotCommand>,
}

/// What to push to Telegram on a command sync: the menus, and the private
/// chats (the numeric admin ids) that get the admin menu.
#[derive(Clone, Debug, PartialEq, Eq)]
pub struct CommandSyncPlan {
    pub menu: MenuCommands,
    pub admin_chats: Vec<i64>,
}

/// Whether `c` is an ASCII lowercase letter.
pub open spec fn is_ascii_lower(c: char) -> bool {
    97 <= (c as u32) && (c as u32) <= 122
}

/// Whether `c` may appear in a Telegram command name.
pub open spec fn is_command_char(c: char) -> bool {
    is_ascii_lower(c) || is_digit(c) || c == '_'
}

/// Telegram's rule for command names: 1 to 32 characters, lowercase ASCII
/// letters, digits or underscores, starting with a letter.
pub open spec fn valid_command_name(name: Seq<char>) -> bool {
    &&& 1 <= name.len() <= 32
    &&& is_ascii_lower(name[0])
    &&& forall|i: int| 0 <= i < name.len() ==> #[trigger] is_command_char(name[i])
}

/// Whether a registered command belongs in the menu shown to everyone.
pub open spec fn in_default_menu(spec: CommandSpec) -> bool {
    valid_command_name(spec.name@) && spec.visibility == CommandVisibility::Public
}

/// Whether a registered command belongs in the menu shown to admins.
pub open spec fn in_admin_menu(spec: CommandSpec) -> bool {
    valid_command_name(spec.name@) && (spec.visibility == CommandVisibility::Public
        || spec.visibility == CommandVisibility::Admin)
}

/// The name and description of a registered command.
pub open spec fn spec_entry(spec: CommandSpec) -> (Seq<char>, Seq<char>) {
    (spec.name@, spec.description@)
}

/// The name and description of a menu entry.
pub open spec fn menu_entry(c: BotCommand) -> (Seq<char>, Seq<char>) {
    (c.command@, c.description@)
}

/// The entries of a menu, in order.
pub open spec fn menu_entries(menu: Seq<BotCommand>) -> Seq<(Seq<char>, Seq<char>)> {
    menu.map_values(|c: BotCommand| menu_entry(c))
}

/// The entries, in registration order, of the registered commands that `keep` admits.
pub open spec fn kept_entries(specs: Seq<CommandSpec>, keep: spec_fn(CommandSpec) -> bool) -> Seq<
    (Seq<char>, Seq<char>),
> {
    specs.filter(keep).map_values(|s: CommandSpec| spec_entry(s))
}

/// The chat ids of the admins whose ids are numeric, in order.
pub open spec fn numeric_ids(ids: Seq<Seq<char>>) -> Seq<i64> {
    ids.filter_map(|s: Seq<char>| parse_i64_spec(s))
}

/// The registered commands shown to everyone, in order.
pub open spec fn default_menu_specs(specs: Seq<CommandSpec>) -> Seq<CommandSpec> {
    specs.filter(|x: CommandSpec| in_default_menu(x))
}

/// The registered commands shown to admins, in order.
pub open spec fn admin_menu_specs(specs: Seq<CommandSpec>) -> Seq<CommandSpec> {
    specs.filter(|x: CommandSpec| in_admin_menu(x))
}

/// Every command shown to everyone is also shown to admins, and no command
/// with a name that Telegram refuses, nor a hidden one, is shown at all.
pub proof fn law_menus_nest(specs: Seq<CommandSpec>)
    ensures
        forall|s: CommandSpec|
            #[trigger] default_menu_specs(specs).contains(s) ==> admin_menu_specs(specs).contains(s),
        forall|s: CommandSpec|
            #[trigger] admin_menu_specs(specs).contains(s) ==> valid_command_name(
                s.name@,
            ) && s.visibility != CommandVisibility::Hidden,
{
    let dflt = |x: CommandSpec| in_default_menu(x);
    let adm = |x: CommandSpec| in_admin_menu(x);
    assert forall|s: CommandSpec| specs.filter(dflt).contains(s) implies specs.filter(adm).contains(
        s,
    ) by {
        specs.lemma_filter_contains_rev(dflt, s);
        specs.filter_lemma(adm);
        let i = choose|i: int| 0 <= i < specs.len() && specs[i] == s;
        specs.lemma_filter_contains(adm, i);
    }
    assert forall|s: CommandSpec| specs.filter(adm).contains(s) implies valid_command_name(s.name@)
        && s.visibility != CommandVisibility::Hidden by {
        specs.filter_lemma(adm);
        let i = choose|i: int| 0 <= i < specs.filter(adm).len() && specs.filter(adm)[i] == s;
        assert(adm(specs.filter(adm)[i]));
    }
}

/// A command name is accepted exactly when it has 1 to 32 characters, begins
/// with a lowercase ASCII letter, and holds nothing but lowercase ASCII
/// letters, ASCII digits and underscores; so any name with an uppercase
/// letter, a space or a non-ASCII character anywhere is refused.
pub proof fn law_command_names(name: Seq<char>, i: int)
    ensures
        valid_command_name(name) == (1 <= name.len() <= 32 && 97 <= (name[0] as u32) <= 122
            && forall|j: int|
            0 <= j < name.len() ==> (97 <= (#[trigger] name[j] as u32) <= 122 || 48 <= (
            name[j] as u32) <= 57 || name[j] == '_')),
        (0 <= i < name.len() && 65 <= (name[i] as u32) <= 90) ==> !valid_command_name(name),
        (0 <= i < name.len() && name[i] == ' ') ==> !valid_command_name(name),
        (0 <= i < name.len() && (name[i] as u32) > 127) ==> !valid_command_name(name),
{
    let plain = forall|j: int|
        0 <= j < name.len() ==> (97 <= (#[trigger] name[j] as u32) <= 122 || 48 <= (
        name[j] as u32) <= 57 || name[j] == '_');
    if valid_command_name(name) {
        assert forall|j: int| 0 <= j < name.len() implies (97 <= (#[trigger] name[j] as u32)
            <= 122 || 48 <= (name[j] as u32) <= 57 || name[j] == '_') by {
            assert(is_command_char(name[j]));
        }
    }
    if plain {
        assert forall|j: int| 0 <= j < name.len() implies #[trigger] is_command_char(name[j]) by {
            assert(97 <= (name[j] as u32) <= 122 || 48 <= (name[j] as u32) <= 57 || name[j] == '_');
        }
    }
    if 0 <= i < name.len() && valid_command_name(name) {
        assert(is_command_char(name[i]));
    }
}

/// Whether `name` is a command name that Telegram accepts.
pub fn is_valid_tg_command(name: &str) -> (r: bool)
    ensures
        r == valid_command_name(name@),
{
    let len = name.unicode_len();
    if len < 1 || len > 32 {
        return false;
    }
    let first = name.get_char(0) as u32;
    if first < 97 || first > 122 {
        return false;
    }
    let mut i: usize = 0;
    while i < len
        invariant
            len == name@.len(),
            i <= len,
            forall|j: int| 0 <= j < i ==> #[trigger] is_command_char(name@[j]),
        decreases len - i,
    {
        let c = name.get_char(i);
        let cu = c as u32;
        if !((97 <= cu && cu <= 122) || (48 <= cu && cu <= 57) || c == '_') {
            assert(!is_command_char(name@[i as int]));
            return false;
        }
        i = i + 1;
    }
    true
}

fn entry_of(spec: &CommandSpec) -> (r: BotCommand)
    ensures
        menu_entry(r) == spec_entry(*spec),
{
    BotCommand { command: spec.name.clone(), description: spec.description.clone() }
}

/// Splits the registered commands into the menu shown to everyone and the
/// menu shown to admins; hidden commands, and names that Telegram would
/// refuse, appear in neither.
pub fn partition_commands(specs: &[CommandSpec]) -> (r: MenuCommands)
    ensures
        menu_entries(r.default@) == kept_entries(specs@, |s: CommandSpec| in_default_menu(s)),
        menu_entries(r.admin@) == kept_entries(specs@, |s: CommandSpec| in_admin_menu(s)),
{
    let ghost dflt = |s: CommandSpec| in_default_menu(s);
    let ghost adm = |s: CommandSpec| in_admin_menu(s);
    let mut menu = MenuCommands { default: Vec::new(), admin: Vec::new() };
    let mut i: usize = 0;
    while i < specs.len()
        invariant
            i <= specs@.len(),
            dflt == (|s: CommandSpec| in_default_menu(s)),
            adm == (|s: CommandSpec| in_admin_menu(s)),
            menu_entries(menu.default@) == kept_entries(specs@.take(i as int), dflt),
            menu_entries(menu.admin@) == kept_entries(specs@.take(i as int), adm),
        decreases specs@.len() - i,
    {
        let spec = &specs[i];
        let ghost x = specs@[i as int];
        let ghost prev_default = menu.default@;
        let ghost prev_admin = menu.admin@;
        proof {
            specs@.lemma_take_succ_push(i as int);
            specs@.take(i as int).lemma_filter_push(x, dflt);
            specs@.take(i as int).lemma_filter_push(x, adm);
            assert(specs@.take(i + 1) == specs@.take(i as int).push(x));
        }
        let valid = is_valid_tg_command(spec.name.as_str());
        if valid {
            match spec.visibility {
                CommandVisibility::Public => {
                    let e = entry_of(spec);
                    menu.default.push(e);
                    let e = entry_of(spec);
                    menu.admin.push(e);
                },
                CommandVisibility::Admin => {
                    let e = entry_of(spec);
                    menu.admin.push(e);
                },
                CommandVisibility::Hidden => {},
            }
        }
        proof {
            let f = |s: CommandSpec| spec_entry(s);
            let g = |c: BotCommand| menu_entry(c);
            specs@.take(i as int).filter(dflt).lemma_push_map_commute(f, x);
            specs@.take(i as int).filter(adm).lemma_push_map_commute(f, x);
            if dflt(x) {
                assert(menu.default@ == prev_default.push(menu.default@.last()));
                prev_default.lemma_push_map_commute(g, menu.default@.last());
            } else {
                assert(menu.default@ == prev_default);
            }
            if adm(x) {
                assert(menu.admin@ == prev_admin.push(menu.admin@.last()));
                prev_admin.lemma_push_map_commute(g, menu.admin@.last());
            } else {
                assert(menu.admin@ == prev_admin);
            }
        }
        assert(menu_entries(menu.default@) =~= kept_entries(specs@.take(i + 1), dflt));
        assert(menu_entries(menu.admin@) =~= kept_entries(specs@.take(i + 1), adm));
        i = i + 1;
    }
    assert(specs@.take(specs@.len() as int) =~= specs@);
    menu
}

/// The numeric admin ids, as chat ids; ids that are not numbers are skipped.
pub fn numeric_chat_ids(ids: &[String]) -> (r: Vec<i64>)
    ensures
        r@ == numeric_ids(ids@.map_values(|s: String| s@)),
{
    let ghost views = ids@.map_values(|s: String| s@);
    let ghost f = |s: Seq<char>| parse_i64_spec(s);
    let mut out: Vec<i64> = Vec::new();
    let mut i: usize = 0;
    while i < ids.len()
        invariant
            i <= ids@.len(),
            views == ids@.map_values(|s: String| s@),
            f == (|s: Seq<char>| parse_i64_spec(s)),
            out@ == views.take(i as int).filter_map(f),
        decreases ids@.len() - i,
    {
        proof {
            views.lemma_filter_map_take_succ(f, i as int);
        }
        match parse_i64(ids[i].as_str()) {
            Some(id) => {
                out.push(id);
            },
            None => {},
        }
        i = i + 1;
    }
    assert(views.take(ids@.len() as int) =~= views);
    out
}

/// What a command sync pushes to Telegram, or `None` while no bot is set up:
/// the two menus, and the admins' chats that get the admin menu.
pub fn sync_commands<B>(state: &AdapterState<B>, specs: &[CommandSpec]) -> (r: Option<
    CommandSyncPlan,
>)
    ensures
        state.current_bot() is None ==> r is None,
        state.current_bot() is Some ==> (r matches Some(plan) && {
            &&& menu_entries(plan.menu.default@) == kept_entries(
                specs@,
                |s: CommandSpec| in_default_menu(s),
            )
            &&& menu_entries(plan.menu.admin@) == kept_entries(
                specs@,
                |s: CommandSpec| in_admin_menu(s),
            )
            &&& plan.admin_chats@ == match state.current_config() {
                Some(c) => numeric_ids(admin_texts(c.admins@)),
                None => Seq::<i64>::empty(),
            }
        }),
{
    if state.telegram_bot().is_none() {
        return None;
    }
    let menu = partition_commands(specs);
    let ids = state.admin_ids();
    let admin_chats = numeric_chat_ids(ids.as_slice());
    proof {
        if state.current_config() is None {
            assert(ids@.map_values(|s: String| s@) =~= Seq::<Seq<char>>::empty());
            assert(numeric_ids(Seq::<Seq<char>>::empty()) =~= Seq::<i64>::empty()) by {
                reveal(Seq::filter);
            }
        }
    }
    Some(CommandSyncPlan { menu, admin_chats })
}

} // verus!
