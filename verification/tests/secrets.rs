//! Secrets, signing seeds and credentials.

use ab_harness::config::HarnessConfig;
use ab_harness::errors::PipelineError;
use ab_harness::headers::sensitive_value;
use ab_harness::secrets::{
    describe_upstream_auth, read_secret_from, require_owner_only_mode, require_owner_only_secret,
    resolve_tool_auth, resolve_upstream_auth, FileStat, SecretFile,
};
use ab_harness::seed::{encode_seed, read_seed};

fn stat(mode: u32) -> FileStat {
    FileStat { is_symlink: false, is_file: true, mode, kind: "FileType".to_owned() }
}

fn file(path: &str, mode: u32, content: &str) -> Option<SecretFile> {
    Some(SecretFile { path: path.to_owned(), stat: Ok(stat(mode)), content: Ok(content.to_owned()) })
}

#[test]
fn read_secret_source_handling() {
    let env = |name: &str| -> Option<String> {
        match name {
            "GOOD_KEY" => Some("sk-live-123\n".into()),
            "EMPTY_KEY" => Some("   ".into()),
            _ => None,
        }
    };
    assert_eq!(
        read_secret_from(env, Some("GOOD_KEY"), &None, "upstream API key").unwrap().as_deref(),
        Some("sk-live-123"),
        "value must be trimmed"
    );
    assert!(read_secret_from(env, Some("MISSING_KEY"), &None, "upstream API key").is_err());
    assert!(read_secret_from(env, Some("EMPTY_KEY"), &None, "upstream API key").is_err());
    assert!(read_secret_from(env, None, &None, "upstream API key").unwrap().is_none());

    // A file that its owner alone can read is accepted and trimmed, another is refused.
    let error = read_secret_from(env, None, &file("key", 0o644, "sk-file-456\n"), "upstream API key").unwrap_err();
    assert!(error.message().contains("must be owner-only"), "{}", error.message());
    assert_eq!(
        read_secret_from(env, None, &file("key", 0o600, "sk-file-456\n"), "upstream API key").unwrap().as_deref(),
        Some("sk-file-456")
    );
    // A missing file is an error.
    let absent = Some(SecretFile {
        path: "absent".to_owned(),
        stat: Err("No such file or directory (os error 2)".to_owned()),
        content: Err("No such file or directory (os error 2)".to_owned()),
    });
    assert!(read_secret_from(env, None, &absent, "upstream API key").is_err());
}

#[test]
fn upstream_auth_resolution_and_description() {
    let env = |_: &str| -> Option<String> { None };
    let key = || read_secret_from(env, None, &file("azure.key", 0o600, "azure-raw-key"), "upstream API key").unwrap();

    // Bearer scheme.
    let mut config = HarnessConfig::for_tests("http://up", "spool", "bridge");
    config.upstream_api_key_file = Some("azure.key".to_owned());
    let (name, value) = resolve_upstream_auth(&config, key()).unwrap().unwrap();
    assert_eq!(name.as_str(), "authorization");
    assert_eq!(value.to_str().unwrap(), "Bearer azure-raw-key");
    assert!(value.is_sensitive(), "credential must redact in Debug output");
    assert!(!format!("{value:?}").contains("azure-raw-key"));

    // Raw scheme (Azure api-key style).
    config.upstream_auth_header = "api-key".into();
    config.upstream_auth_scheme = String::new();
    let (name, value) = resolve_upstream_auth(&config, key()).unwrap().unwrap();
    assert_eq!(name.as_str(), "api-key");
    assert_eq!(value.to_str().unwrap(), "azure-raw-key");

    // The description names the source but never the value.
    let described = describe_upstream_auth(&config);
    assert!(described.contains("api-key from file"), "{described}");
    assert!(!described.contains("azure-raw-key"), "{described}");

    // No auth configured resolves to nothing and describes as none.
    let bare = HarnessConfig::for_tests("http://up", "spool", "bridge");
    let none = read_secret_from(env, None, &None, "upstream API key").unwrap();
    assert!(resolve_upstream_auth(&bare, none).unwrap().is_none());
    assert_eq!(describe_upstream_auth(&bare), "none");

    // The tool bearer has the Bearer form.
    let bearer = resolve_tool_auth(key()).unwrap().unwrap();
    assert_eq!(bearer.to_str().unwrap(), "Bearer azure-raw-key");
    assert!(bearer.is_sensitive());
}

#[test]
fn credentials_must_fit_a_header() {
    let mut config = HarnessConfig::for_tests("http://up", "spool", "bridge");
    match resolve_upstream_auth(&config, Some("line\nbreak".to_owned())) {
        Err(PipelineError::Upstream(m)) => {
            assert_eq!(m, "upstream API key contains bytes that cannot appear in an HTTP header")
        }
        other => panic!("{other:?}"),
    }
    config.upstream_auth_header = "not a header".to_owned();
    match resolve_upstream_auth(&config, Some("key".to_owned())) {
        Err(PipelineError::Upstream(m)) => {
            assert_eq!(m, "upstream_auth_header \"not a header\" is not a valid header name")
        }
        other => panic!("{other:?}"),
    }
    match resolve_tool_auth(Some("line\nbreak".to_owned())) {
        Err(PipelineError::Upstream(m)) => {
            assert_eq!(m, "tool upstream bearer token contains bytes that cannot appear in an HTTP header")
        }
        other => panic!("{other:?}"),
    }
    let value = sensitive_value("caf\u{e9}").unwrap();
    assert_eq!(value.as_bytes(), "caf\u{e9}".as_bytes());
    assert!(value.is_sensitive());
    assert!(sensitive_value("a\u{7f}").is_none());
    assert!(resolve_tool_auth(None).unwrap().is_none());
}

#[test]
fn refuses_known_weak_signing_seed_all_zeros() {
    let err = read_seed(&"0".repeat(64), "zeros.seed").unwrap_err();
    assert!(err.contains("all zeros"), "expected all-zeros rejection, got: {err}");
}

#[test]
fn refuses_known_weak_signing_seed_all_ff() {
    let err = read_seed(&"f".repeat(64), "ff.seed").unwrap_err();
    assert!(err.contains("0xFF"), "expected all-0xFF rejection, got: {err}");
}

#[test]
fn refuses_to_load_group_readable_signing_seed() {
    let err = require_owner_only_mode("leaky.seed", &stat(0o640)).unwrap_err();
    assert!(err.contains("must be 0o600"), "got {err}");
}

#[test]
fn refuses_to_load_world_readable_signing_seed() {
    assert!(require_owner_only_mode("public.seed", &stat(0o644)).is_err());
}

#[test]
fn refuses_to_follow_signing_seed_symlink_to_attacker_owned_file() {
    let link = FileStat { is_symlink: true, is_file: false, mode: 0o777, kind: "FileType".to_owned() };
    let err = require_owner_only_mode("signing.seed", &link).unwrap_err();
    assert!(err.contains("symbolic link"), "expected symlink rejection, got: {err}");
}

#[test]
fn owner_only_files_pass_both_ways() {
    assert!(require_owner_only_mode("k", &stat(0o600)).is_ok());
    assert!(require_owner_only_mode("k", &stat(0o400)).is_ok());
    assert!(require_owner_only_secret("k", &Ok(stat(0o100600))).is_ok());
    let directory = FileStat { is_symlink: false, is_file: false, mode: 0o700, kind: "FileType".to_owned() };
    assert!(require_owner_only_mode("k", &directory).is_err());
    assert!(require_owner_only_secret("k", &Err("gone".to_owned())).unwrap_err().contains("gone"));
}

#[test]
fn a_stored_seed_is_read_back() {
    let seed: Vec<u8> = (0..32).collect();
    let stored = encode_seed(&seed);
    assert_eq!(stored, "000102030405060708090a0b0c0d0e0f101112131415161718191a1b1c1d1e1f");
    assert_eq!(read_seed(&format!("{stored}\n"), "s").unwrap(), seed);
    assert!(read_seed("00", "s").is_err());
    assert_eq!(read_seed(&"z".repeat(64), "s").unwrap_err(), "decode signing seed as hex");
}
