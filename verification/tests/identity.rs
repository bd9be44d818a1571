//! Identities, scopes, sessions and header fields.

use ab_harness::config::HarnessConfig;
use ab_harness::errors::{FinalizeError, PipelineError};
use ab_harness::headers::{
    is_event_stream, is_forwardable_upstream_header, response_headers, session_id, session_name, workflow,
    Headers, MIDDLEWARE_US_HEADER, SESSION_HEADER, WORKFLOW_HEADER,
};
use ab_harness::identity::{
    accept_identity, anonymous_identity, bearer_token, classify_identity_error, route_identity, scope_allows,
    tool_scope, IdentityError, IdentityRoute, ValidatedIdentity,
};
use ab_harness::session::{validate_session_binding, AgentIdentity, Workflow};

fn headers(fields: &[(&str, &str)]) -> Headers {
    Headers { fields: fields.iter().map(|(n, v)| (n.to_string(), v.as_bytes().to_vec())).collect() }
}

fn agent(uid: &str) -> AgentIdentity {
    AgentIdentity {
        version: "1".to_owned(),
        charter: "test".to_owned(),
        instance_uid: uid.to_owned(),
        ttl_remaining_s: Some(600),
    }
}

#[test]
fn identity_scope_matching_supports_exact_and_namespace_wildcards() {
    assert!(scope_allows(&["chat:write".into()], "chat:write"));
    assert!(scope_allows(&["tool:*".into()], "tool:db_write"));
    assert!(scope_allows(&["*".into()], "session:promote"));
    assert!(!scope_allows(&["chat:read".into()], "chat:write"));
    assert!(!scope_allows(&["tooling:*".into()], "tool:db_write"));
}

#[test]
fn more_scopes_never_take_anything_away() {
    assert!(scope_allows(&["chat:read".into(), "chat:write".into()], "chat:write"));
    assert!(!scope_allows(&[], "chat:write"));
    assert!(scope_allows(&["tool:*".into()], &tool_scope("merge")));
    assert_eq!(tool_scope("merge"), "tool:merge");
}

#[test]
fn duplicate_x_ab_session_header_is_refused() {
    let headers = headers(&[(SESSION_HEADER, "sessA"), (SESSION_HEADER, "sessB")]);
    match session_name(&headers) {
        Ok(id) => panic!("expected duplicate-header refusal, got session_id {id:?}"),
        Err(PipelineError::BadRequest(msg)) => {
            assert!(msg.contains("more than one"), "got {msg}");
            assert!(msg.contains("x-ab-session"), "got {msg}");
        }
        Err(other) => panic!("expected BadRequest, got {other:?}"),
    }
}

#[test]
fn duplicate_x_ab_workflow_header_is_refused() {
    let headers = headers(&[(WORKFLOW_HEADER, "signed"), (WORKFLOW_HEADER, "unsigned")]);
    match workflow(&headers, "signed") {
        Ok(w) => panic!("expected duplicate-header refusal, got workflow {w:?}"),
        Err(PipelineError::BadRequest(msg)) => {
            assert!(msg.contains("more than one"), "got {msg}");
            assert!(msg.contains("x-ab-workflow"), "got {msg}");
        }
        Err(other) => panic!("expected BadRequest, got {other:?}"),
    }
}

#[test]
fn single_x_ab_session_header_still_flows() {
    let headers = headers(&[(SESSION_HEADER, "only-one")]);
    let name = session_name(&headers).unwrap().unwrap();
    assert_eq!(session_id(Ok(name)).unwrap(), "only-one");
}

#[test]
fn a_session_header_must_be_text() {
    let odd = Headers { fields: vec![(SESSION_HEADER.to_owned(), vec![0xc3, 0xa9])] };
    assert!(matches!(session_name(&odd), Err(PipelineError::BadRequest(m)) if m == "X-AB-Session is not valid text"));
    let odd = Headers { fields: vec![(WORKFLOW_HEADER.to_owned(), vec![7])] };
    assert!(matches!(workflow(&odd, "signed"), Err(PipelineError::BadRequest(m)) if m == "X-AB-Workflow is not valid text"));
    assert!(session_name(&headers(&[])).unwrap().is_none());
    assert!(matches!(session_id(Err("too long".to_owned())), Err(PipelineError::BadRequest(m)) if m == "too long"));
}

#[test]
fn a_workflow_word_is_quoted_when_it_is_refused() {
    let refused = workflow(&headers(&[(WORKFLOW_HEADER, "maybe \"so\"")]), "signed");
    match refused {
        Err(PipelineError::BadRequest(m)) => {
            assert_eq!(m, "X-AB-Workflow must be signed or unsigned, got \"maybe \\\"so\\\"\"")
        }
        other => panic!("{other:?}"),
    }
    assert_eq!(workflow(&headers(&[]), "unsigned").unwrap(), Workflow::Unsigned);
    assert_eq!(workflow(&headers(&[(WORKFLOW_HEADER, "signed")]), "unsigned").unwrap(), Workflow::Signed);
    for w in [Workflow::Signed, Workflow::Unsigned] {
        assert_eq!(Workflow::parse(w.as_str()), Some(w));
    }
    assert_eq!(Workflow::parse("Signed"), None);
}

#[test]
fn identity_validation_failure_does_not_leak_kid_or_issuer() {
    let sentinel_kid = "sentinel-attacker-kid";
    let sentinel_iss = "https://sentinel-attacker-iss.example.invalid";
    let sentinel_alg = "HS512";
    let cases: Vec<(&'static str, IdentityError)> = vec![
        ("Malformed", IdentityError::Malformed("jwt parse".into())),
        ("MissingKid", IdentityError::MissingKid),
        ("UnknownKid", IdentityError::UnknownKid(sentinel_kid.into())),
        (
            "AlgorithmRejected",
            IdentityError::AlgorithmRejected { alg: sentinel_alg.into(), kid: sentinel_kid.into() },
        ),
        ("Verification", IdentityError::Verification("bad sig".into())),
        ("TtlTooLong", IdentityError::TtlTooLong(9999)),
        ("BadTimestamps", IdentityError::BadTimestamps { iat: 10, exp: 5 }),
        ("FutureIat", IdentityError::FutureIat { iat: 999_999_999, now: 1 }),
        ("EmptyField", IdentityError::EmptyField("charter".into())),
        ("SpoofingCharacter", IdentityError::SpoofingCharacter("charter".into())),
        ("BadIssuer", IdentityError::BadIssuer(sentinel_iss.into())),
        ("ScopeEscalation", IdentityError::ScopeEscalation { scope: "chat:write".into() }),
        ("ExpEscalation", IdentityError::ExpEscalation { child: 100, parent: 50 }),
        ("ChainTooDeep", IdentityError::ChainTooDeep(5)),
    ];

    let mut classifications: std::collections::BTreeSet<&'static str> = std::collections::BTreeSet::new();
    for (name, error) in &cases {
        let client_msg = classify_identity_error(error);
        classifications.insert(client_msg);
        assert!(!client_msg.contains(sentinel_kid), "{name}: client message {client_msg:?} echoes attacker kid");
        assert!(!client_msg.contains(sentinel_iss), "{name}: client message {client_msg:?} echoes attacker iss");
        assert!(!client_msg.contains(sentinel_alg), "{name}: client message {client_msg:?} echoes attacker alg");
        let wire = PipelineError::Unauthorized(client_msg.to_owned()).message();
        assert!(!wire.contains(sentinel_kid), "{name}: wire error {wire:?} echoes attacker kid");
        assert!(!wire.contains(sentinel_iss), "{name}: wire error {wire:?} echoes attacker iss");
        assert!(!wire.contains(sentinel_alg), "{name}: wire error {wire:?} echoes attacker alg");
    }
    assert_eq!(classifications.len(), 1, "{classifications:?}");
    let jwks_msg = classify_identity_error(&IdentityError::Jwks("bad jwks".into()));
    assert_ne!(jwks_msg, *classifications.iter().next().unwrap());
}

#[test]
fn a_repeated_credential_is_refused_and_a_single_one_is_not() {
    let twice = headers(&[("authorization", "Bearer a"), ("authorization", "Bearer b")]);
    match bearer_token(&twice) {
        Err(PipelineError::BadRequest(m)) => assert!(m.contains("more than one") && m.contains("authorization"), "{m}"),
        other => panic!("{other:?}"),
    }
    let once = headers(&[("authorization", "Bearer a")]);
    assert_eq!(bearer_token(&once).unwrap().as_deref(), Some("a"));
    assert_eq!(bearer_token(&headers(&[("authorization", "Basic a")])).unwrap(), None);
}

#[test]
fn identities_are_routed_by_what_is_configured() {
    let mut config = HarnessConfig::for_tests("http://u", "spool", "bridge");
    let with = headers(&[("authorization", "Bearer tok")]);
    let without = headers(&[]);
    assert!(matches!(route_identity(&with, true, &config), IdentityRoute::Validate(t) if t == "tok"));
    match route_identity(&with, false, &config) {
        IdentityRoute::Refuse(PipelineError::Unauthorized(m)) => {
            assert!(m.contains("identity validator is not configured"), "{m}")
        }
        other => panic!("{other:?}"),
    }
    assert!(matches!(route_identity(&without, false, &config), IdentityRoute::Anonymous(i) if i.charter == "anonymous"));
    config.require_identity = true;
    assert!(matches!(
        route_identity(&without, true, &config),
        IdentityRoute::Refuse(PipelineError::Unauthorized(m)) if m == "missing bearer token"
    ));
    config.require_identity = false;
    config.upstream_authorization_passthrough = true;
    assert!(matches!(route_identity(&with, false, &config), IdentityRoute::Anonymous(_)));
    assert_eq!(anonymous_identity().version, "dev");
}

#[test]
fn scopes_gate_a_validated_identity() {
    let validated = || ValidatedIdentity { identity: agent("i"), scopes: vec!["chat:write".to_owned()] };
    assert_eq!(accept_identity(Ok(validated()), true, Some("chat:write")).unwrap().instance_uid, "i");
    match accept_identity(Ok(validated()), true, Some("session:close")) {
        Err(PipelineError::Unauthorized(m)) => assert_eq!(m, "identity scope \"session:close\" is required"),
        other => panic!("{other:?}"),
    }
    assert!(accept_identity(Ok(validated()), false, Some("session:close")).is_ok());
    assert!(accept_identity(Ok(validated()), true, None).is_ok());
    assert!(matches!(
        accept_identity(Err(IdentityError::MissingKid), true, None),
        Err(PipelineError::Unauthorized(_))
    ));
}

#[test]
fn a_session_keeps_its_workflow_and_its_owner() {
    let owner = agent("a");
    assert!(validate_session_binding(Workflow::Signed, &owner, Workflow::Signed, &agent("a")).is_ok());
    match validate_session_binding(Workflow::Signed, &owner, Workflow::Unsigned, &agent("a")) {
        Err(PipelineError::BadRequest(m)) => assert_eq!(m, "session workflow cannot change after open"),
        other => panic!("{other:?}"),
    }
    match validate_session_binding(Workflow::Signed, &owner, Workflow::Signed, &agent("b")) {
        Err(PipelineError::Unauthorized(m)) => assert_eq!(m, "session is bound to a different agent identity"),
        other => panic!("{other:?}"),
    }
    let mut fresher = agent("a");
    fresher.ttl_remaining_s = None;
    assert!(validate_session_binding(Workflow::Signed, &owner, Workflow::Signed, &fresher).is_ok());
}

#[test]
fn upstream_response_headers_do_not_cross_proxy_trust_boundary() {
    let dangerous = [
        "set-cookie",
        "access-control-allow-origin",
        "access-control-allow-credentials",
        "access-control-allow-methods",
        "access-control-allow-headers",
        "access-control-expose-headers",
        "access-control-max-age",
        "connection",
        "keep-alive",
        "transfer-encoding",
        "upgrade",
        "te",
        "trailer",
        "proxy-authenticate",
        "proxy-authorization",
        "content-length",
        "server",
        "via",
        "x-powered-by",
        "x-request-id",
    ];
    for name in dangerous {
        assert!(
            !is_forwardable_upstream_header(name),
            "dangerous header {name:?} must not be forwarded to the client"
        );
    }

    let benign = ["content-type", "content-encoding", "cache-control", "etag", "last-modified", "vary", "expires"];
    for name in benign {
        assert!(is_forwardable_upstream_header(name), "benign header {name:?} must still be forwarded");
    }
}

#[test]
fn the_client_sees_passed_fields_and_our_own() {
    let upstream = headers(&[
        ("content-type", "application/json"),
        ("vary", "a"),
        ("set-cookie", "x=1"),
        ("vary", "b"),
        (SESSION_HEADER, "forged"),
    ]);
    let sent = response_headers(&upstream, "session-1", 42);
    let shown: Vec<(String, String)> = sent
        .fields
        .iter()
        .map(|(n, v)| (n.clone(), String::from_utf8(v.clone()).unwrap()))
        .collect();
    let wanted: Vec<(String, String)> = [
        ("content-type", "application/json"),
        ("vary", "a"),
        ("vary", "b"),
        (SESSION_HEADER, "session-1"),
        (MIDDLEWARE_US_HEADER, "42"),
    ]
    .iter()
    .map(|(n, v)| (n.to_string(), v.to_string()))
    .collect();
    assert_eq!(shown, wanted);
    let broken = response_headers(&headers(&[]), "line\nbreak", 7);
    assert_eq!(broken.fields.len(), 1);
}

#[test]
fn event_streams_are_told_by_their_content_type() {
    assert!(is_event_stream(&headers(&[("content-type", "text/event-stream; charset=utf-8")])));
    assert!(!is_event_stream(&headers(&[("content-type", "application/json")])));
    assert!(!is_event_stream(&headers(&[])));
}

#[test]
fn errors_have_words_and_a_status() {
    let cases = [
        (PipelineError::BadRequest("x".into()), 400, "bad request: x"),
        (PipelineError::Unauthorized("x".into()), 401, "unauthorized: x"),
        (PipelineError::Blocked("x".into()), 403, "request blocked: x"),
        (PipelineError::Abort("x".into()), 409, "connection aborted: x"),
        (PipelineError::Upstream("x".into()), 502, "upstream request failed: x"),
        (PipelineError::Unavailable("x".into()), 503, "audit capture unavailable: x"),
    ];
    for (error, status, words) in &cases {
        assert_eq!(error.status(), *status);
        assert_eq!(error.message(), *words);
        assert_eq!(error.closes_connection(), *status == 409);
    }
}

#[test]
fn failures_at_the_end_of_a_session_have_words() {
    let cases = [
        (FinalizeError::Task("x".into()), "finalization task failed: x"),
        (FinalizeError::Receipt("x".into()), "receipt issuance failed: x"),
        (FinalizeError::Atif("x".into()), "ATIF finalization failed: x"),
        (FinalizeError::Promotion("x".into()), "promotion refused: x"),
        (FinalizeError::CaptureIncomplete, "session capture is incomplete; refusing final artifact"),
        (FinalizeError::Bridge("x".into()), "lifecycle event publication failed: x"),
    ];
    for (error, words) in &cases {
        assert_eq!(error.message(), *words);
    }
}
