use tg_adapter::config::Config;
use tg_adapter::dispatcher::{plan_start, resolve_api_url, ApiUrl, AttemptOutcome, Reconnect, ReconnectState};
use tg_adapter::state::AdapterState;

#[test]
fn api_url_is_trimmed_parsed_or_ignored() {
    assert_eq!(resolve_api_url(None), ApiUrl::Default);
    assert_eq!(resolve_api_url(Some("   ")), ApiUrl::Default);
    assert_eq!(resolve_api_url(Some(" http://localhost:8081 ")), ApiUrl::Custom("http://localhost:8081/".to_string()));
    assert_eq!(resolve_api_url(Some("not a url")), ApiUrl::Invalid("not a url".to_string()));
}

#[test]
fn dispatcher_needs_a_configuration() {
    let mut state: AdapterState<()> = AdapterState::new();
    assert_eq!(plan_start(&state), None);
    state.set_config(Config { bot_token: "tok".to_string(), api_url: Some("https://api.example.org".to_string()), admins: vec![] });
    let plan = plan_start(&state).unwrap();
    assert_eq!(plan.token, "tok");
    assert_eq!(plan.api_url, ApiUrl::Custom("https://api.example.org/".to_string()));
}

#[test]
fn reconnect_backoff_doubles_up_to_a_minute() {
    let mut st = ReconnectState::new();
    let mut delays = Vec::new();
    for _ in 0..8 {
        match st.on_attempt_end(AttemptOutcome::Crashed) {
            Reconnect::RetryAfter(d) => delays.push(d),
            Reconnect::Stop => panic!("a crash is retried"),
        }
    }
    assert_eq!(delays, vec![1, 2, 4, 8, 16, 32, 60, 60]);
    assert_eq!(st.on_attempt_end(AttemptOutcome::Finished), Reconnect::Stop);
    assert_eq!(st.on_attempt_end(AttemptOutcome::Cancelled), Reconnect::Stop);
    assert_eq!(st.on_attempt_end(AttemptOutcome::Crashed), Reconnect::RetryAfter(60));
}
