//! The adapter's configuration: bot token, optional API URL and the admins.
use vstd::prelude::*;

use crate::decimal::{i64_to_decimal, int_decimal};
use crate::text::str_eq;

verus! {

/// An admin id as written in the configuration: a string or a number.
#[derive(Clone, Debug, PartialEq, Eq)]
pub enum AdminId {
    String(String),
    Integer(i64),
}

/// The adapter's configuration file, `config.toml`.
#[derive(Clone, Debug, PartialEq, Eq)]
pub struct Config {
    pub bot_token: String,
    pub api_url: Option<String>,
    pub admins: Vec<AdminId>,
}

/// The text that a configured admin id stands for: the string itself, or
/// the decimal rendering of the number.
pub open spec fn admin_id_text(id: AdminId) -> Seq<char> {
    match id {
        AdminId::String(s) => s@,
        AdminId::Integer(n) => int_decimal(n as int),
    }
}

/// The texts of all configured admin ids, in order.
pub open spec fn admin_texts(admins: Seq<AdminId>) -> Seq<Seq<char>> {
    admins.map_values(|a: AdminId| admin_id_text(a))
}

/// Whether `user_id` is among the configured admins.
pub open spec fn is_admin_spec(admins: Seq<AdminId>, user_id: Seq<char>) -> bool {
    exists|i: int| 0 <= i < admins.len() && admin_id_text(#[trigger] admins[i]) == user_id
}

/// The configuration written when none exists yet.
pub const DEFAULT_CONFIG: &'static str = "# Telegram Adapter Configuration\nbot_token = \"YOUR_BOT_TOKEN_HERE\"\n# api_url = \"https://api.telegram.org\"\nadmins = []\n";

/// A user is an admin exactly when their id is among the listed admin ids.
pub proof fn law_admin_iff_listed(admins: Seq<AdminId>, user_id: Seq<char>)
    ensures
        is_admin_spec(admins, user_id) <==> admin_texts(admins).contains(user_id),
{
    if is_admin_spec(admins, user_id) {
        let i = choose|i: int| 0 <= i < admins.len() && admin_id_text(#[trigger] admins[i]) == user_id;
        assert(admin_texts(admins)[i] == user_id);
    }
    if admin_texts(admins).contains(user_id) {
        let i = choose|i: int| 0 <= i < admin_texts(admins).len() && admin_texts(admins)[i] == user_id;
        assert(admin_id_text(admins[i]) == user_id);
    }
}

impl AdminId {
    /// Whether this admin id denotes the user with id `user_id`.
    pub fn matches(&self, user_id: &str) -> (r: bool)
        ensures
            r == (admin_id_text(*self) == user_id@),
    {
        match self {
            AdminId::String(id) => str_eq(id.as_str(), user_id),
            AdminId::Integer(id) => {
                let text = i64_to_decimal(*id);
                str_eq(text.as_str(), user_id)
            },
        }
    }
}

impl Config {
    /// Whether the user with id `user_id` is one of the configured admins.
    pub fn is_admin(&self, user_id: &str) -> (r: bool)
        ensures
            r == is_admin_spec(self.admins@, user_id@),
    {
        let mut i: usize = 0;
        while i < self.admins.len()
            invariant
                i <= self.admins@.len(),
                forall|j: int|
                    0 <= j < i ==> admin_id_text(#[trigger] self.admins@[j]) != user_id@,
            decreases self.admins@.len() - i,
        {
            if self.admins[i].matches(user_id) {
                return true;
            }
            i = i + 1;
        }
        false
    }

    /// All configured admin ids, each as the text it stands for.
    pub fn admin_ids(&self) -> (r: Vec<String>)
        ensures
            r@.map_values(|s: String| s@) == admin_texts(self.admins@),
    {
        let mut out: Vec<String> = Vec::new();
        let mut i: usize = 0;
        while i < self.admins.len()
            invariant
                i <= self.admins@.len(),
                out@.len() == i,
                forall|j: int|
                    0 <= j < i ==> (#[trigger] out@[j])@ == admin_id_text(self.admins@[j]),
            decreases self.admins@.len() - i,
        {
            let text = match &self.admins[i] {
                AdminId::String(id) => id.clone(),
                AdminId::Integer(id) => i64_to_decimal(*id),
            };
            out.push(text);
            i = i + 1;
        }
        assert(out@.map_values(|s: String| s@) =~= admin_texts(self.admins@));
        out
    }
}

} // verus!
