//! The decisions of the update dispatcher: whether and how to start, which
//! API URL to use, and how to back off between reconnection attempts.
use vstd::prelude::*;
use vstd::arithmetic::power2::{lemma2_to64, lemma_pow2_unfold, pow2};

use crate::external::{parse_url, url_parse};
use crate::state::AdapterState;
use crate::text::{opt_view, trim, trim_seq};

verus! {

/// The Telegram API endpoint to talk to.
#[derive(Clone, Debug, PartialEq, Eq)]
pub enum ApiUrl {
    /// Telegram's own endpoint.
    Default,
    /// A configured endpoint, in its parsed, serialized form.
    Custom(String),
    /// A configured endpoint that does not parse (as written, trimmed); the
    /// default endpoint is used instead.
    Invalid(String),
}

/// The endpoint chosen for a configured `api_url`: none, or only white
/// space, means the default; a URL that parses is used; one that does not
/// is reported and the default used.
pub open spec fn api_url_spec(api_url: Option<Seq<char>>, r: ApiUrl) -> bool {
    match api_url {
        None => r == ApiUrl::Default,
        Some(s) => {
            let t = trim_seq(s);
            if t.len() == 0 {
                r == ApiUrl::Default
            } else {
                match url_parse(t) {
                    Some(u) => r matches ApiUrl::Custom(c) && c@ == u,
                    None => r matches ApiUrl::Invalid(c) && c@ == t,
                }
            }
        },
    }
}

/// Chooses the endpoint for a configured `api_url`.
pub fn resolve_api_url(api_url: Option<&str>) -> (r: ApiUrl)
    ensures
        api_url_spec(
            match api_url {
                Some(s) => Some(s@),
                None => None,
            },
            r,
        ),
{
    let Some(raw) = api_url else {
        return ApiUrl::Default;
    };
    let trimmed = trim(raw);
    if trimmed.unicode_len() == 0 {
        return ApiUrl::Default;
    }
    match parse_url(trimmed) {
        Some(url) => ApiUrl::Custom(url),
        None => ApiUrl::Invalid(trimmed.to_owned()),
    }
}

/// How the dispatcher starts: with the configured bot token and endpoint.
#[derive(Clone, Debug, PartialEq, Eq)]
pub struct StartPlan {
    pub token: String,
    pub api_url: ApiUrl,
}

/// Whether and how the dispatcher starts: not at all without a
/// configuration, else with its token and the endpoint its `api_url` names.
pub fn plan_start<B>(state: &AdapterState<B>) -> (r: Option<StartPlan>)
    ensures
        match state.current_config() {
            None => r is None,
            Some(c) => r matches Some(p) && p.token@ == c.bot_token@ && api_url_spec(
                opt_view(c.api_url),
                p.api_url,
            ),
        },
{
    let (token, api_url) = match state.config_snapshot() {
        Some(snapshot) => snapshot,
        None => {
            return None;
        },
    };
    let api_url = match &api_url {
        Some(u) => resolve_api_url(Some(u.as_str())),
        None => resolve_api_url(None),
    };
    Some(StartPlan { token, api_url })
}

/// How a run of the dispatcher ended.
#[derive(Clone, Copy, Debug, PartialEq, Eq)]
pub enum AttemptOutcome {
    /// It returned on its own: a clean shutdown.
    Finished,
    /// It crashed, typically because Telegram could not be reached.
    Crashed,
    /// Its task was cancelled, as when the runtime shuts down.
    Cancelled,
}

/// What to do after a run of the dispatcher.
#[derive(Clone, Copy, Debug, PartialEq, Eq)]
pub enum Reconnect {
    Stop,
    /// Wait this many seconds, then run it again.
    RetryAfter(u64),
}

/// The first delay before reconnecting, in seconds.
pub const INITIAL_BACKOFF_SECS: u64 = 1;

/// The longest delay before reconnecting, in seconds.
pub const MAX_BACKOFF_SECS: u64 = 60;

/// The delay after `n` crashes in a row: one second, doubled after each
/// crash, at most a minute.
pub open spec fn backoff_after(n: nat) -> int
    decreases n,
{
    if n == 0 {
        INITIAL_BACKOFF_SECS as int
    } else {
        let d = 2 * backoff_after((n - 1) as nat);
        if d < MAX_BACKOFF_SECS {
            d
        } else {
            MAX_BACKOFF_SECS as int
        }
    }
}

/// The reconnection loop's state: the delay before the next attempt.
#[derive(Clone, Copy, Debug, PartialEq, Eq)]
pub struct ReconnectState {
    backoff_secs: u64,
}

impl ReconnectState {
    /// The current delay, in seconds.
    pub closed spec fn delay(self) -> int {
        self.backoff_secs as int
    }

    /// The delay stays between the first delay and the longest.
    pub closed spec fn wf(self) -> bool {
        INITIAL_BACKOFF_SECS <= self.backoff_secs <= MAX_BACKOFF_SECS
    }

    /// The state before the first attempt.
    pub fn new() -> (r: ReconnectState)
        ensures
            r.wf(),
            r.delay() == backoff_after(0),
    {
        ReconnectState { backoff_secs: INITIAL_BACKOFF_SECS }
    }

    /// Decides what follows a run of the dispatcher: a clean shutdown or a
    /// cancellation stops the loop; a crash waits the current delay and
    /// doubles it, up to a minute.
    pub fn on_attempt_end(&mut self, outcome: AttemptOutcome) -> (r: Reconnect)
        requires
            old(self).wf(),
        ensures
            final(self).wf(),
            match outcome {
                AttemptOutcome::Crashed => {
                    &&& r == Reconnect::RetryAfter(old(self).delay() as u64)
                    &&& final(self).delay() == if 2 * old(self).delay() < MAX_BACKOFF_SECS {
                        2 * old(self).delay()
                    } else {
                        MAX_BACKOFF_SECS as int
                    }
                },
                _ => r == Reconnect::Stop && final(self).delay() == old(self).delay(),
            },
    {
        match outcome {
            AttemptOutcome::Crashed => {
                let delay = self.backoff_secs;
                let doubled = delay * 2;
                self.backoff_secs = if doubled < MAX_BACKOFF_SECS {
                    doubled
                } else {
                    MAX_BACKOFF_SECS
                };
                Reconnect::RetryAfter(delay)
            },
            _ => Reconnect::Stop,
        }
    }
}

/// After `n` crashes in a row the delay is `2^n` seconds, until it reaches a
/// minute, and a minute from then on; it never shrinks.
pub proof fn law_backoff_doubles_to_a_minute(n: nat)
    ensures
        n <= 5 ==> backoff_after(n) == pow2(n),
        n >= 6 ==> backoff_after(n) == MAX_BACKOFF_SECS,
        backoff_after(n) <= backoff_after(n + 1),
        INITIAL_BACKOFF_SECS <= backoff_after(n) <= MAX_BACKOFF_SECS,
    decreases n,
{
    lemma2_to64();
    if n > 0 {
        law_backoff_doubles_to_a_minute((n - 1) as nat);
        if n <= 5 {
            lemma_pow2_unfold(n);
        }
    }
}

} // verus!
