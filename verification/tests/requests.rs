//! Chat requests: what is read out of them and what is added to them.

use ab_harness::audit::{record_response, EventClass, Payload, Source, StatusId};
use ab_harness::capture::ResponseCapture;
use ab_harness::errors::PipelineError;
use ab_harness::failure::{closing_failure_record, failure_record, rejection_record, rejection_session, MAX_ECHO};
use ab_harness::json::{as_list, as_text, parse_json, Json};
use ab_harness::provider::StopReason;
use ab_harness::relay::{refusal_status, BudgetVerdict, RelayAction, RelayEvent, RelayFlow};
use ab_harness::request::{atif_capture_from_request, inject_corrective_message, json_type_name, last_message_text};
use ab_harness::session::Workflow;

fn json(text: &str) -> Json {
    parse_json(text).unwrap()
}

fn words(text: &str) -> u64 {
    text.split_whitespace().count() as u64
}

#[test]
fn developer_and_tool_roles_map_to_valid_system_steps() {
    for (role, expects_observation) in [("developer", false), ("tool", true)] {
        let capture = atif_capture_from_request(&json(&format!(
            r#"{{"messages": [{{"role": "{role}", "content": "context", "tool_call_id": "call-1"}}]}}"#
        )))
        .unwrap();
        assert_eq!(capture.source, Source::System);
        assert_eq!(capture.observation.is_some(), expects_observation);
        assert!(capture.model_name.is_none());
    }
}

fn bad_request_message(payload: Json) -> String {
    match atif_capture_from_request(&payload) {
        Ok(_) => panic!("expected BadRequest, got Ok"),
        Err(PipelineError::BadRequest(msg)) => msg,
        Err(other) => panic!("expected BadRequest, got {other:?}"),
    }
}

#[test]
fn atif_capture_rejects_non_array_messages_with_precise_diagnostics() {
    // The field is missing.
    let msg = bad_request_message(json(r#"{"input": [{ "role": "user", "content": "hi" }]}"#));
    assert!(msg.contains("missing 'messages'"), "got {msg}");
    // The field is there in another shape.
    let msg = bad_request_message(json(r#"{"messages": { "0": { "role": "user", "content": "hi" } }}"#));
    assert!(msg.contains("must be a JSON array"), "got {msg}");
    assert!(msg.contains("object"), "got {msg}");
    // The field is an empty array.
    let msg = bad_request_message(json(r#"{ "messages": [] }"#));
    assert!(msg.contains("empty"), "got {msg}");
}

#[test]
fn json_values_have_a_kind() {
    let kinds = [("null", "null"), ("true", "bool"), ("1", "number"), ("\"s\"", "string"), ("[]", "array"), ("{}", "object")];
    for (text, kind) in kinds {
        assert!(json_type_name(&json(text)).starts_with(&kind[..4]), "{text}");
    }
}

#[test]
fn the_last_message_is_read_as_text() {
    assert_eq!(last_message_text(&json(r#"{"messages":[{"content":"a"},{"content":"b"}]}"#)), "b");
    assert_eq!(last_message_text(&json(r#"{"messages":[]}"#)), "");
    assert_eq!(last_message_text(&json(r#"{}"#)), "");
}

#[test]
fn a_correction_only_adds_a_message() {
    let payload = json(r#"{"messages":[{"role":"user","content":"hi"}],"model":"m"}"#);
    let injected = inject_corrective_message(payload).unwrap();
    let messages = as_list(injected.get("messages")).unwrap();
    assert_eq!(messages.len(), 2);
    assert_eq!(as_text(injected.get("model")).as_deref(), Some("m"));
    let added = messages.iter().filter(|m| as_text(m.get("role")).as_deref() == Some("system")).count();
    assert_eq!(added, 1);
    assert!(messages.iter().any(|m| as_text(m.get("content")).as_deref() == Some("hi")));
    assert!(matches!(inject_corrective_message(json("{}")), Err(PipelineError::BadRequest(_))));
}

#[test]
fn failures_are_written_down_with_their_reason() {
    let record = failure_record(Workflow::Signed, StopReason::PolicyBlocked, "no".to_owned());
    assert_eq!(record.class, EventClass::StopReason);
    assert_eq!(record.status, StatusId::Failure);
    assert_eq!(record.stop_reason, Some(StopReason::PolicyBlocked));
    assert!(matches!(&record.payload, Payload::Reason { reason } if reason == "no"));
    assert!(record.response_attempt.is_none());
    let closing =
        closing_failure_record(Workflow::Unsigned, StopReason::Other, "x".to_owned(), Some("m".to_owned()), "a".to_owned());
    let attempt = closing.response_attempt.unwrap();
    assert_eq!(attempt.id, "a");
    assert!(attempt.terminal);
    assert_eq!(closing.response_marker.as_deref(), Some("m"));
}

#[test]
fn a_rejected_session_id_is_repeated_up_to_a_bound() {
    let record = rejection_record("s-\"1\"", StopReason::IdentityRejected, "bad token");
    assert!(matches!(&record.payload, Payload::Reason { reason } if reason == "requested session \"s-\\\"1\\\"\": bad token"));
    let long = "\u{e9}".repeat(MAX_ECHO);
    let record = rejection_record(&long, StopReason::IdentityRejected, "bad");
    match &record.payload {
        Payload::Reason { reason } => assert_eq!(
            reason,
            &format!("requested session {:?}\u{2026}(truncated): bad", "\u{e9}".repeat(MAX_ECHO / 2))
        ),
        other => panic!("{other:?}"),
    }
    let (name, identity) = rejection_session("uid");
    assert!(name.contains("uid"), "{name}");
    assert_eq!(identity.instance_uid, name);
    assert_eq!(identity.charter, "identity-rejected");
}

#[test]
fn a_response_is_written_down_as_it_was_captured() {
    let mut capture = ResponseCapture::new(200, true);
    capture
        .absorb_frame(
            r#"{"model":"m","choices":[{"delta":{"content":"hi there"},"finish_reason":"length"}],"usage":{"completion_tokens":2}}"#,
            &words,
        )
        .unwrap();
    let record = record_response(&capture, None, Some("mark".to_owned()), "try".to_owned());
    assert_eq!(record.text, "hi there");
    assert_eq!(record.stop_reason, Some(StopReason::MaxTokens));
    assert_eq!(record.native_stop_reason.as_deref(), Some("length"));
    assert!(matches!(&record.payload, Payload::ResponseFinished { finish_reason, http_status: 200 } if finish_reason == "length"));
    let attempt = record.response_attempt.unwrap();
    assert!(attempt.terminal && attempt.id == "try");
    assert_eq!(record.response_marker.as_deref(), Some("mark"));
    let refused = record_response(&capture, Some("too dear".to_owned()), None, "try".to_owned());
    assert_eq!(refused.status, StatusId::Failure);
    assert!(matches!(&refused.payload, Payload::ResponseRefused { reason } if reason == "too dear"));
}

#[test]
fn an_event_stream_is_handed_on_chunk_by_chunk() {
    let mut flow = RelayFlow::new(true);
    assert!(matches!(flow.step(RelayEvent::Poll), RelayAction::Read));
    let action = flow.step(RelayEvent::Chunk { bytes: b"abc".to_vec(), charge: Ok(3) });
    assert!(matches!(action, RelayAction::CheckBudget(3)), "{action:?}");
    let action = flow.step(RelayEvent::Verdict(BudgetVerdict::Allowed));
    assert!(matches!(action, RelayAction::Emit(b) if b == b"abc"));
    assert!(matches!(flow.step(RelayEvent::Poll), RelayAction::Read));
    let action = flow.step(RelayEvent::UpstreamEnded { charge: Ok(0) });
    assert!(matches!(action, RelayAction::Submit(None)), "{action:?}");
    assert!(matches!(flow.step(RelayEvent::Submitted(Ok(()))), RelayAction::Finish));
    assert!(matches!(flow.step(RelayEvent::Poll), RelayAction::Finish));
}

#[test]
fn a_document_is_held_back_until_it_is_paid_for() {
    let mut flow = RelayFlow::new(false);
    flow.step(RelayEvent::Poll);
    let action = flow.step(RelayEvent::Chunk { bytes: b"ab".to_vec(), charge: Ok(0) });
    assert!(matches!(action, RelayAction::Read), "{action:?}");
    let mut action = flow.step(RelayEvent::UpstreamEnded { charge: Ok(5) });
    assert!(matches!(action, RelayAction::CheckBudget(5)), "{action:?}");
    action = flow.step(RelayEvent::Verdict(BudgetVerdict::Refused { limit: "tokens".to_owned(), cap: 4 }));
    match action {
        RelayAction::Submit(Some(reason)) => assert!(reason.contains("tokens"), "{reason}"),
        other => panic!("{other:?}"),
    }
    match flow.step(RelayEvent::Submitted(Ok(()))) {
        RelayAction::Fail { quota, .. } => {
            assert!(quota);
            assert_eq!(refusal_status(quota), 429);
        },
        other => panic!("{other:?}"),
    }
    assert!(matches!(flow.step(RelayEvent::Poll), RelayAction::Finish), "nothing held back comes out");
}

#[test]
fn a_budget_that_cannot_be_asked_refuses() {
    let mut flow = RelayFlow::new(true);
    flow.step(RelayEvent::Poll);
    flow.step(RelayEvent::Chunk { bytes: b"x".to_vec(), charge: Ok(1) });
    match flow.step(RelayEvent::Verdict(BudgetVerdict::BackendFailed("gone".to_owned()))) {
        RelayAction::Submit(Some(reason)) => assert_eq!(reason, "token budget backend failed closed: gone"),
        other => panic!("{other:?}"),
    }
    match flow.step(RelayEvent::Submitted(Err("full".to_owned()))) {
        RelayAction::Fail { message, quota: false, capture_failed: true } => {
            assert_eq!(message, "response capture failed closed: full")
        }
        other => panic!("{other:?}"),
    }
    let mut lost = RelayFlow::new(true);
    lost.step(RelayEvent::Poll);
    lost.step(RelayEvent::Chunk { bytes: b"x".to_vec(), charge: Ok(1) });
    let action = lost.step(RelayEvent::Verdict(BudgetVerdict::TaskFailed("panic".to_owned())));
    assert!(matches!(action, RelayAction::Fail { capture_failed: true, .. }));
}

#[test]
fn an_abandoned_response_is_still_written_down() {
    let mut flow = RelayFlow::new(true);
    flow.step(RelayEvent::Poll);
    let plan = flow.abandon(false, false, &Ok(0));
    assert!(plan.submit_capture && !plan.mark_capture_failed);
    let plan = flow.abandon(false, false, &Err("torn".to_owned()));
    assert!(plan.mark_capture_failed);
    let mut done = RelayFlow::new(true);
    done.step(RelayEvent::Poll);
    let action = done.step(RelayEvent::UpstreamEnded { charge: Ok(0) });
    assert!(matches!(action, RelayAction::Submit(None)));
    done.step(RelayEvent::Submitted(Ok(())));
    assert!(!done.abandon(false, false, &Ok(0)).submit_capture);
}
