//! The locks of sessions, and what is read and written around them.

use ab_harness::artifact::principal_document;
use ab_harness::errors::PipelineError;
use ab_harness::json::{parse_json_bytes, Json};
use ab_harness::locks::SessionLockTable;
use ab_harness::session::AgentIdentity;
use ab_harness::startup::{checked_schema, read_schema};
use ab_harness::tools::{checked_document, request_document};
use ab_harness::upstream::{classify_jwks_error, key_set, material_of, read_jwks, request_material, JwksFault};

#[test]
fn per_session_lock_table_prunes_entries_after_close() {
    const SESSIONS: usize = 200;
    let mut locks = SessionLockTable::new();
    for i in 0..SESSIONS {
        assert_eq!(locks.lock_for(&format!("prune-{i}"), i as u64), i as u64);
    }
    assert_eq!(locks.len(), SESSIONS);
    for i in 0..SESSIONS {
        assert_eq!(locks.release(&format!("prune-{i}")), Some(i as u64));
    }
    assert_eq!(locks.len(), 0);
}

#[test]
fn a_lock_is_shared_while_it_is_used() {
    let mut locks = SessionLockTable::new();
    assert_eq!(locks.lock_for("s", 1), 1);
    assert_eq!(locks.lock_for("s", 2), 1);
    assert_eq!(locks.users("s"), 2);
    assert_eq!(locks.release("s"), None);
    assert_eq!((locks.users("s"), locks.len()), (1, 1));
    assert_eq!(locks.lock_for("s", 3), 1);
    assert_eq!(locks.release("s"), None);
    assert_eq!(locks.release("s"), Some(1));
    assert_eq!((locks.users("s"), locks.len()), (0, 0));
    assert_eq!(locks.lock_for("s", 4), 4);
}

#[test]
fn sessions_have_locks_of_their_own() {
    let mut locks = SessionLockTable::new();
    assert_eq!(locks.lock_for("a", 1), 1);
    assert_eq!(locks.lock_for("b", 2), 2);
    assert_eq!(locks.release("a"), Some(1));
    assert_eq!(locks.release("never seen"), None);
    assert_eq!((locks.users("a"), locks.users("b"), locks.len()), (0, 1, 1));
    assert_eq!(locks.lock_for("b", 3), 2);
}

#[test]
fn request_material_is_the_payload_as_it_is_written() {
    let payload: serde_json::Value = serde_json::from_str(r#"{ "model" : "m", "n": 1 }"#).unwrap();
    assert_eq!(request_material(&payload, "s"), br#"{"model":"m","n":1}"#.to_vec());
    assert_eq!(material_of(Ok(vec![1, 2]), "s"), vec![1, 2]);
    assert_eq!(material_of(Err("no".to_owned()), "größe"), "größe".as_bytes().to_vec());
    assert_ne!(material_of(Err("no".to_owned()), "a"), material_of(Err("no".to_owned()), "b"));
}

#[test]
fn bytes_are_read_as_documents() {
    let document = parse_json_bytes(br#"{"a":[true]}"#).unwrap();
    assert!(matches!(document.get("a"), Some(Json::List(items)) if matches!(items[0], Json::Bool(true))));
    assert!(parse_json_bytes(b"{").is_err());
    assert!(parse_json_bytes(&[0x22, 0xff, 0x22]).is_err());
}

#[test]
fn a_key_set_that_is_no_json_is_told_apart() {
    assert!(matches!(read_jwks(br#"{"keys":[]}"#), Ok(set) if set.get("keys").is_some()));
    let fault = read_jwks(b"<html>").unwrap_err();
    assert!(matches!(&fault, JwksFault::Other(words) if words == "parse JWKS JSON"));
    assert_eq!(classify_jwks_error(&fault), "parse");
    assert!(key_set(Err("x".to_owned())).is_err());
    assert!(matches!(key_set(Ok(Json::Null)), Ok(Json::Null)));
    let long = JwksFault::Other("JWKS exceeded 4194304 bytes (received at least 4194305)".to_owned());
    assert_eq!(classify_jwks_error(&long), "oversize");
}

#[test]
fn a_schema_that_is_no_json_names_its_file() {
    assert!(matches!(read_schema(b"true", "tools/a.json"), Ok(Json::Bool(true))));
    assert_eq!(read_schema(b"tru", "tools/a.json").unwrap_err(), "parse tool schema tools/a.json");
    assert_eq!(checked_schema(Err("x".to_owned()), "b").unwrap_err(), "parse tool schema b");
}

#[test]
fn a_tool_request_that_is_no_json_is_refused() {
    assert!(matches!(request_document(b"null"), Ok(Json::Null)));
    assert!(matches!(request_document(b"nul"), Err(PipelineError::BadRequest(words)) if words.contains("EOF")));
    assert!(matches!(checked_document(Err("x".to_owned())), Err(PipelineError::BadRequest(words)) if words == "x"));
}

#[test]
fn a_renewed_token_is_the_same_principal() {
    let agent = |version: &str, ttl: Option<u64>| AgentIdentity {
        version: version.to_owned(),
        charter: "c".to_owned(),
        instance_uid: "i".to_owned(),
        ttl_remaining_s: ttl,
    };
    let shown = |identity: &AgentIdentity| {
        format!("{:?}", principal_document(Json::Text(identity.charter.clone()), identity))
    };
    assert_eq!(shown(&agent("1", Some(600))), shown(&agent("1", None)));
    assert_ne!(shown(&agent("1", Some(600))), shown(&agent("2", Some(600))));
    let document = principal_document(Json::Text("c".to_owned()), &agent("1", None));
    assert!(matches!(document.get("version"), Some(Json::Text(v)) if v == "1"));
    assert!(document.get("ttl_remaining_s").is_none());
}
