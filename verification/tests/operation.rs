//! Startup, shutdown, outbound requests and the dashboard.

use ab_harness::config::HarnessConfig;
use ab_harness::dashboard::{
    list_sessions, stats, stop_id, ListQuery, SessionSnapshot, SessionSummary, DEFAULT_LIST_LIMIT, MAX_LIST_LIMIT,
};
use ab_harness::operations::{
    breaches_stage_budget, finish_shutdown, join_failures, truthy_env, FinalizationPhase, STAGE_BUDGET_US,
};
use ab_harness::replay::Totals;
use ab_harness::session::{AgentIdentity, Workflow};
use ab_harness::startup::{
    after_seed_install, after_seed_read, check_hmac_secret, check_key_count, check_schemas, choose_bridge,
    choose_embedder, choose_store, choose_vector_sink, falls_back, schema_tool, validates_identities, Backend,
    SeedStep, Source,
};
use ab_harness::upstream::{
    chat_url, check_jwks_length, classify_jwks_error, classify_upstream_error, grow_jwks, grow_tool_response,
    HttpFault, JwksFault, MAX_JWKS_BYTES, MAX_TOOL_RESPONSE_BYTES,
};

fn config() -> HarnessConfig {
    HarnessConfig::for_tests("http://up", "spool", "bridge")
}

const QUIET: HttpFault = HttpFault {
    is_timeout: false,
    is_connect: false,
    is_request: false,
    is_body: false,
    is_decode: false,
    is_status: false,
};

#[test]
fn every_phase_of_a_shutdown_is_reported() {
    assert!(finish_shutdown(Ok(()), true, FinalizationPhase::Done, Ok(())).is_ok());
    let report = finish_shutdown(
        Err("bind".to_owned()),
        false,
        FinalizationPhase::Failed("s: lost".to_owned()),
        Err("flush".to_owned()),
    )
    .unwrap_err();
    assert_eq!(
        report,
        "shutdown failures: server: bind; timed out draining audit worker during shutdown; \
         session finalization: s: lost; telemetry: flush"
    );
    let late = finish_shutdown(Ok(()), true, FinalizationPhase::TimedOut, Ok(())).unwrap_err();
    assert_eq!(late, "shutdown failures: timed out finalizing sessions during shutdown");
    assert!(matches!(join_failures(&vec![]), FinalizationPhase::Done));
    match join_failures(&vec!["a".to_owned(), "b".to_owned()]) {
        FinalizationPhase::Failed(m) => assert!(m.contains('a') && m.contains('b'), "{m}"),
        other => panic!("{other:?}"),
    }
}

#[test]
fn stage_budgets_are_strict_on_demand() {
    assert!(truthy_env(&Some("1".to_owned())));
    assert!(!truthy_env(&Some("0".to_owned())));
    assert!(!truthy_env(&None));
    assert!(breaches_stage_budget(true, &None, STAGE_BUDGET_US + 1));
    assert!(!breaches_stage_budget(true, &None, STAGE_BUDGET_US));
    assert!(!breaches_stage_budget(false, &None, u64::MAX));
    assert!(breaches_stage_budget(false, &Some("true".to_owned()), u64::MAX));
}

#[test]
fn chat_requests_go_to_one_url() {
    let mut config = config();
    config.upstream_url = "https://api.example//".to_owned();
    assert_eq!(chat_url(&config), "https://api.example/v1/chat/completions");
}

#[test]
fn faults_are_told_by_kind() {
    let told = |f: HttpFault| classify_upstream_error(f);
    assert_eq!(told(HttpFault { is_timeout: true, is_connect: true, ..QUIET }), "upstream timed out");
    assert_eq!(told(HttpFault { is_connect: true, is_request: true, ..QUIET }), "upstream unreachable");
    assert_eq!(told(HttpFault { is_request: true, ..QUIET }), "upstream request rejected");
    assert_eq!(told(HttpFault { is_decode: true, ..QUIET }), "upstream response malformed");
    assert_eq!(told(HttpFault { is_status: true, ..QUIET }), "upstream returned error status");
    assert_eq!(told(QUIET), "upstream forwarding failed");
    assert_eq!(classify_jwks_error(&JwksFault::Request(HttpFault { is_body: true, ..QUIET })), "body");
    assert_eq!(classify_jwks_error(&JwksFault::Other("JWKS exceeded 1 byte".to_owned())), "oversize");
    assert_eq!(classify_jwks_error(&JwksFault::Other("parse JWKS JSON".to_owned())), "parse");
    assert_eq!(classify_jwks_error(&JwksFault::Other("else".to_owned())), "other");
}

#[test]
fn answers_are_bounded() {
    let mut body = vec![0; MAX_TOOL_RESPONSE_BYTES - 1];
    grow_tool_response(&mut body, b"x").unwrap();
    assert_eq!(grow_tool_response(&mut body, b"x").unwrap_err(), "tool response exceeds 16777216 bytes");
    assert_eq!(body.len(), MAX_TOOL_RESPONSE_BYTES);
    assert!(check_jwks_length(MAX_JWKS_BYTES as u64).is_ok());
    assert!(check_jwks_length(MAX_JWKS_BYTES as u64 + 1).unwrap_err().contains("4194305"));
    let mut keys = vec![0; MAX_JWKS_BYTES];
    let error = grow_jwks(&mut keys, b"x").unwrap_err();
    assert_eq!(classify_jwks_error(&JwksFault::Other(error)), "oversize");
}

#[test]
fn backends_are_never_guessed() {
    let mut config = config();
    assert!(matches!(choose_bridge(&config, false, false), Ok(Backend::BuiltIn)));
    assert!(matches!(choose_store(&config, false), Ok(Backend::BuiltIn)));
    assert!(matches!(choose_embedder(&config, false), Ok(Backend::BuiltIn)));
    assert!(matches!(choose_vector_sink(&config, false), Ok(Backend::BuiltIn)));
    config.bridge_backend = "kafka".to_owned();
    assert!(choose_bridge(&config, false, false).unwrap_err().contains("built without feature kafka"));
    assert_eq!(choose_bridge(&config, true, false).unwrap_err(), "bridge_endpoint is required for kafka");
    config.bridge_endpoint = Some("broker:9092".to_owned());
    match choose_bridge(&config, true, false) {
        Ok(Backend::Remote { name, endpoint }) => assert_eq!((name.as_str(), endpoint.as_str()), ("kafka", "broker:9092")),
        other => panic!("{other:?}"),
    }
    config.bridge_backend = "smoke \"signals\"".to_owned();
    assert_eq!(choose_bridge(&config, true, true).unwrap_err(), "unsupported bridge backend \"smoke \\\"signals\\\"\"");
    config.state_backend = "paper".to_owned();
    assert!(choose_store(&config, true).is_err());
}

#[test]
fn startup_checks_fail_loudly() {
    let mut config = config();
    config.require_tool_schema = true;
    config.tool_upstream_url = None;
    assert_eq!(check_schemas(&config, 0), Ok(true));
    assert_eq!(check_schemas(&config, 1), Ok(false));
    config.tool_upstream_url = Some("http://tools".to_owned());
    config.tool_schema_dir = Some("schemas".to_owned());
    assert!(check_schemas(&config, 0).unwrap_err().ends_with("loaded from Some(\"schemas\")"));
    assert_eq!(schema_tool("db_write.json").as_deref(), Some("db_write"));
    assert!(schema_tool("README.md").is_none());
    assert!(!validates_identities(&config));
    config.identity_hmac_secret_file = Some("/run/hmac".to_owned());
    assert!(validates_identities(&config));
    assert!(check_hmac_secret("/run/hmac", 0).is_err());
    assert!(check_hmac_secret("/run/hmac", 1).is_ok());
    assert!(check_key_count(0).is_err());
    assert!(check_key_count(1).is_ok());
}

#[test]
fn missing_files_have_a_stand_in_only_by_default() {
    assert!(falls_back(&Source::NotFound, true));
    assert!(!falls_back(&Source::NotFound, false));
    assert!(!falls_back(&Source::Failed, true));
    assert_eq!(after_seed_read(&Source::Read), SeedStep::Use);
    assert_eq!(after_seed_read(&Source::NotFound), SeedStep::Create);
    assert_eq!(after_seed_read(&Source::Failed), SeedStep::Fail);
    assert_eq!(after_seed_install(true), SeedStep::UseCreated);
    assert_eq!(after_seed_install(false), SeedStep::ReadAgain);
}

fn summary(id: &str, workflow: Workflow, at: u64, closed: bool) -> SessionSummary {
    SessionSummary::from_session(
        SessionSnapshot {
            id: id.to_owned(),
            workflow,
            last_activity_ms: at,
            is_closed: closed,
            closing: false,
            artifact_committed: false,
            close_complete: false,
            capture_failed: false,
            active_streams: 0,
            pending_jobs: 0,
            stop_reason_id: 0,
            totals: Totals {
                tool_calls: 1,
                tool_allowed: 1,
                tool_blocked: 0,
                prompt_tokens: u64::MAX,
                completion_tokens: 2,
                cached_tokens: 0,
                cost_usd_micros: 3,
            },
            identity: AgentIdentity {
                version: "1".to_owned(),
                charter: "c".to_owned(),
                instance_uid: "i".to_owned(),
                ttl_remaining_s: None,
            },
            has_receipt: false,
        },
        "none".to_owned(),
    )
}

fn all() -> Vec<SessionSummary> {
    vec![
        summary("old", Workflow::Signed, 1, false),
        summary("new", Workflow::Unsigned, 9, true),
        summary("mid", Workflow::Signed, 5, true),
    ]
}

#[test]
fn sessions_are_listed_newest_first() {
    let everything = list_sessions(all(), &ListQuery { limit: None, status: None, workflow: None });
    let ids: Vec<&str> = everything.sessions.iter().map(|s| s.id.as_str()).collect();
    assert_eq!(ids, ["new", "mid", "old"]);
    assert_eq!(everything.matched, 3);
    let signed = ListQuery { limit: Some(1), status: None, workflow: Some("signed".to_owned()) };
    let list = list_sessions(all(), &signed);
    assert_eq!(list.sessions.len(), 1);
    assert_eq!(list.sessions[0].id, "mid");
    let none = list_sessions(all(), &ListQuery { limit: Some(0), status: None, workflow: None });
    assert!(none.sessions.is_empty());
    assert_eq!(none.matched, 3);
    let open = ListQuery { limit: None, status: Some("open".to_owned()), workflow: None };
    let list = list_sessions(all(), &open);
    assert_eq!(list.sessions.iter().map(|s| s.id.as_str()).collect::<Vec<_>>(), ["old"]);
    assert!(DEFAULT_LIST_LIMIT <= MAX_LIST_LIMIT);
}

#[test]
fn every_session_is_counted() {
    let s = stats(&all());
    assert_eq!(s.session_count, 3);
    assert_eq!(s.open_count + s.closed_count, 3);
    assert_eq!((s.workflow_signed, s.workflow_unsigned), (2, 1));
    assert_eq!(s.totals.completion_tokens, 6);
    assert_eq!(s.totals.prompt_tokens, u64::MAX);
    assert_eq!(stop_id(3), 3);
    assert_eq!(stop_id(1000), stop_id(u64::MAX));
}
