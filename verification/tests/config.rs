//! Configuration: defaults, overrides from the environment, and soundness.

use ab_harness::config::{
    config_search_paths, resolve_config_source, ConfigSource, HarnessConfig, CONFIG_VERSION,
};

/// Reads the fields of a configuration that these tests set out of TOML, on
/// top of the defaults, and validates it.
fn from_toml(source: &str) -> Result<HarnessConfig, String> {
    let table: toml::Table = source.parse().map_err(|e: toml::de::Error| format!("config parse: {e}"))?;
    let mut cfg = HarnessConfig::builtin()?;
    for (key, value) in &table {
        let text = value.as_str().map(str::to_owned);
        match key.as_str() {
            "upstream_url" => cfg.upstream_url = text.ok_or("upstream_url")?,
            "upstream_api_key_env" => cfg.upstream_api_key_env = text,
            "upstream_api_key_file" => cfg.upstream_api_key_file = text,
            "upstream_authorization_passthrough" => {
                cfg.upstream_authorization_passthrough = value.as_bool().ok_or("passthrough")?
            }
            "require_identity" => cfg.require_identity = value.as_bool().ok_or("require_identity")?,
            "identity_hmac_secret_file" => cfg.identity_hmac_secret_file = text,
            "upstream_auth_header" => cfg.upstream_auth_header = text.ok_or("header")?,
            "upstream_auth_scheme" => cfg.upstream_auth_scheme = text.ok_or("scheme")?,
            "upstream_chat_path" => cfg.upstream_chat_path = text.ok_or("path")?,
            "tool_upstream_bearer_env" => cfg.tool_upstream_bearer_env = text,
            "config_version" => cfg.config_version = value.as_integer().ok_or("version")? as u32,
            "default_workflow" => cfg.default_workflow = text.ok_or("workflow")?,
            "worker_channel_capacity" => {
                cfg.worker_channel_capacity = value.as_integer().ok_or("capacity")? as usize
            }
            _ => {}
        }
    }
    cfg.validate()?;
    Ok(cfg)
}

#[test]
fn minimal_toml_parses_with_defaults() {
    let cfg = from_toml(r#"upstream_url = "https://api.openai.com""#).unwrap();
    assert_eq!(cfg.config_version, CONFIG_VERSION);
    assert_eq!(cfg.default_workflow, "unsigned");
    assert_eq!(cfg.session_idle_close_s, 900);
    assert!(cfg.compression_enabled);
    assert_eq!(cfg.upstream_chat_path, "/v1/chat/completions");
    assert_eq!(cfg.upstream_auth_header, "authorization");
    assert_eq!(cfg.upstream_auth_scheme, "Bearer");
    assert!(cfg.upstream_api_key_env.is_none());
    assert!(!cfg.upstream_authorization_passthrough);
}

#[test]
fn upstream_auth_invariants_enforced() {
    assert!(from_toml(
        r#"upstream_url = "https://api.openai.com"
               upstream_api_key_env = "OPENAI_API_KEY"
               upstream_api_key_file = "/etc/key""#
    )
    .is_err());
    assert!(from_toml(
        r#"upstream_url = "https://api.openai.com"
               upstream_api_key_env = "OPENAI_API_KEY"
               upstream_authorization_passthrough = true"#
    )
    .is_err());
    assert!(from_toml(
        r#"upstream_url = "https://api.openai.com"
               upstream_authorization_passthrough = true
               require_identity = true
               identity_hmac_secret_file = "/run/secrets/hmac""#
    )
    .is_err());
    assert!(from_toml(
        r#"upstream_url = "https://api.openai.com"
               upstream_auth_header = "not a header""#
    )
    .is_err());
    assert!(from_toml(
        r#"upstream_url = "https://api.openai.com"
               upstream_auth_scheme = "Bearer extra""#
    )
    .is_err());
    assert!(from_toml(
        r#"upstream_url = "https://api.openai.com"
               upstream_chat_path = "v1/chat/completions""#
    )
    .is_err());
    assert!(from_toml(
        r#"upstream_url = "https://api.openai.com"
               tool_upstream_bearer_env = "MCP_TOKEN""#
    )
    .is_err());
    let azure = from_toml(
        r#"upstream_url = "https://res.openai.azure.com"
               upstream_chat_path = "/openai/deployments/gpt-4o/chat/completions?api-version=2024-10-21"
               upstream_api_key_env = "AZURE_OPENAI_API_KEY"
               upstream_auth_header = "api-key"
               upstream_auth_scheme = """#,
    )
    .unwrap();
    assert_eq!(azure.upstream_auth_scheme, "");
}

#[test]
fn env_overrides_apply_with_documented_precedence() {
    let mut cfg = HarnessConfig::for_tests("http://file-upstream", "spool", "bridge");
    let env = |name: &str| -> Option<String> {
        match name {
            "AB_LISTEN" => Some("0.0.0.0:9999".into()),
            "AB_UPSTREAM_URL" => Some("http://env-upstream".into()),
            "AB_UPSTREAM_CHAT_PATH" => Some("/openai/v1/chat/completions".into()),
            "AB_UPSTREAM_API_KEY" => Some("sk-secret".into()),
            "AB_STATE_ENDPOINT" => Some("redis://redis:6379".into()),
            _ => None,
        }
    };
    cfg.apply_env_overrides_from(env);
    assert_eq!(cfg.listen, "0.0.0.0:9999");
    assert_eq!(cfg.upstream_url, "http://env-upstream");
    assert_eq!(cfg.upstream_chat_path, "/openai/v1/chat/completions");
    assert_eq!(cfg.state_endpoint.as_deref(), Some("redis://redis:6379"));
    assert_eq!(cfg.upstream_api_key_env.as_deref(), Some("AB_UPSTREAM_API_KEY"));

    let mut cfg = HarnessConfig::for_tests("http://file-upstream", "spool", "bridge");
    cfg.upstream_api_key_env = Some("OPENAI_API_KEY".into());
    cfg.apply_env_overrides_from(env);
    assert_eq!(cfg.upstream_api_key_env.as_deref(), Some("OPENAI_API_KEY"));

    let mut cfg = HarnessConfig::for_tests("http://file-upstream", "spool", "bridge");
    cfg.apply_env_overrides_from(|name: &str| {
        if name == "AB_UPSTREAM_URL" { Some(String::new()) } else { None }
    });
    assert_eq!(cfg.upstream_url, "http://file-upstream");
}

#[test]
fn builtin_config_validates_once_upstream_is_set() {
    let mut cfg = HarnessConfig::builtin().unwrap();
    assert!(cfg.validate().is_err(), "must not pass without an upstream");
    cfg.apply_env_overrides_from(|name: &str| {
        if name == "AB_UPSTREAM_URL" { Some("http://127.0.0.1:11434".to_owned()) } else { None }
    });
    cfg.validate().unwrap();
    assert_eq!(cfg.bridge_backend, "embedded");
    assert_eq!(cfg.state_backend, "memory");
    assert_eq!(cfg.embedder_backend, "hash");
    assert_eq!(cfg.vector_backend, "memory");
}

#[test]
fn bad_configs_rejected() {
    assert!(from_toml("").is_err());
    assert!(from_toml(
        r#"upstream_url = "x"
               config_version = 99"#
    )
    .is_err());
    assert!(from_toml(
        r#"upstream_url = "x"
               default_workflow = "sometimes""#
    )
    .is_err());
    assert!(from_toml(
        r#"upstream_url = "x"
               worker_channel_capacity = 0"#
    )
    .is_err());
}

#[test]
fn unknown_fields_tolerated_inbound() {
    let cfg = from_toml(
        r#"upstream_url = "https://api"
               future_option_from_v2 = true"#,
    );
    assert!(cfg.is_ok(), "{cfg:?}");
}

#[test]
fn overrides_twice_are_overrides_once() {
    let env = |name: &str| -> Option<String> {
        match name {
            "AB_LISTEN" => Some("0.0.0.0:1".into()),
            "AB_UPSTREAM_API_KEY" => Some("sk".into()),
            _ => None,
        }
    };
    let mut once = HarnessConfig::for_tests("http://u", "spool", "bridge");
    once.apply_env_overrides_from(env);
    let mut twice = once.clone();
    twice.apply_env_overrides_from(env);
    assert_eq!(format!("{once:?}"), format!("{twice:?}"));
}

#[test]
fn a_named_file_comes_before_the_search() {
    let found = resolve_config_source(Some(("/etc/ab.toml".to_owned(), true)), true, true, true);
    assert!(matches!(found, Ok(ConfigSource::File(p)) if p == "/etc/ab.toml"));
    let missing = resolve_config_source(Some(("/etc/ab.toml".to_owned(), false)), true, true, true);
    assert!(missing.is_err());
    let second = resolve_config_source(None, false, true, true);
    assert!(matches!(second, Ok(ConfigSource::File(p)) if p == config_search_paths()[1]));
    assert!(matches!(resolve_config_source(None, false, false, false), Ok(ConfigSource::BuiltIn)));
}

#[test]
fn a_start_without_configuration_says_what_to_do() {
    let cfg = HarnessConfig::builtin().unwrap();
    let words = cfg.check_startup(&ConfigSource::BuiltIn).unwrap_err();
    assert!(words.starts_with("no configuration found and AB_UPSTREAM_URL is not set."), "{words}");
    assert!(words.contains("agentbridge.toml"), "{words}");
    let mut cfg = HarnessConfig::for_tests("http://u", "spool", "bridge");
    assert!(cfg.check_startup(&ConfigSource::BuiltIn).is_ok());
    cfg.config_version = 7;
    let words = cfg.check_startup(&ConfigSource::File("x.toml".to_owned())).unwrap_err();
    assert!(words.contains("x.toml"), "{words}");
}

#[test]
fn defaults_are_recognised() {
    let mut cfg = HarnessConfig::builtin().unwrap();
    assert!(cfg.uses_default_manifest_path());
    assert!(cfg.uses_default_tool_schema_dir());
    assert!(HarnessConfig::is_default_policy_path("config/policies/payload_limit.wat"));
    assert!(!HarnessConfig::is_default_policy_path("config/policies/other.wat"));
    cfg.bridge_manifest_path = "mine.yaml".to_owned();
    cfg.tool_schema_dir = None;
    assert!(!cfg.uses_default_manifest_path());
    assert!(!cfg.uses_default_tool_schema_dir());
}

/// What is refused of a sound configuration after one change.
fn refusal(change: fn(&mut HarnessConfig)) -> String {
    let mut cfg = HarnessConfig::for_tests("http://u", "spool", "bridge");
    cfg.validate().unwrap();
    change(&mut cfg);
    cfg.validate().unwrap_err()
}

#[test]
fn provider_settings_are_refused_in_words() {
    assert_eq!(refusal(|c| c.config_version = 99), "unsupported config_version 99 (this build supports 1)");
    assert_eq!(refusal(|c| c.upstream_url = String::new()), "upstream_url is required");
    assert_eq!(
        refusal(|c| c.upstream_chat_path = "v1".to_owned()),
        "upstream_chat_path must start with '/', got \"v1\""
    );
    assert_eq!(
        refusal(|c| c.upstream_api_key_env = Some(String::new())),
        "upstream_api_key_env must not be empty when set"
    );
    assert_eq!(
        refusal(|c| c.upstream_api_key_file = Some(String::new())),
        "upstream_api_key_file must not be empty when set"
    );
    assert_eq!(
        refusal(|c| {
            c.upstream_api_key_env = Some("K".to_owned());
            c.upstream_api_key_file = Some("k".to_owned());
        }),
        "set only one of upstream_api_key_env or upstream_api_key_file (ambiguous key source)"
    );
    assert_eq!(
        refusal(|c| {
            c.upstream_api_key_env = Some("K".to_owned());
            c.upstream_authorization_passthrough = true;
        }),
        "upstream_authorization_passthrough conflicts with upstream_api_key_env/file: choose one auth mode"
    );
    assert_eq!(
        refusal(|c| {
            c.upstream_authorization_passthrough = true;
            c.require_identity = true;
        }),
        "upstream_authorization_passthrough cannot be combined with require_identity: the \
         Authorization header carries the NHI token, which must never be sent upstream"
    );
    assert_eq!(
        refusal(|c| c.upstream_auth_header = "not a header".to_owned()),
        "upstream_auth_header \"not a header\" is not a valid HTTP header name"
    );
    assert_eq!(
        refusal(|c| c.upstream_auth_scheme = "Bearer extra".to_owned()),
        "upstream_auth_scheme must contain only visible ASCII with no spaces (use \"\" for a raw key)"
    );
    assert_eq!(
        refusal(|c| {
            c.tool_upstream_bearer_env = Some("T".to_owned());
            c.tool_upstream_bearer_file = Some("t".to_owned());
        }),
        "set only one of tool_upstream_bearer_env or tool_upstream_bearer_file (ambiguous token source)"
    );
    assert_eq!(
        refusal(|c| {
            c.tool_upstream_url = Some(String::new());
            c.tool_upstream_bearer_file = Some("t".to_owned());
        }),
        "tool_upstream_bearer_env/file requires tool_upstream_url to be set"
    );
}

#[test]
fn identity_and_backend_settings_are_refused_in_words() {
    assert_eq!(
        refusal(|c| c.default_workflow = "sometimes".to_owned()),
        "default_workflow must be signed|unsigned, got \"sometimes\""
    );
    assert_eq!(
        refusal(|c| {
            c.require_identity = true;
            c.identity_jwks_url = Some(String::new());
            c.identity_hmac_secret_file = None;
        }),
        "require_identity=true needs identity_jwks_url or identity_hmac_secret_file"
    );
    assert_eq!(refusal(|c| c.identity_jwks_refresh_s = 0), "identity_jwks_refresh_s must be greater than zero");
    assert_eq!(refusal(|c| c.identity_hmac_kid = String::new()), "identity_hmac_kid must not be empty");
    assert_eq!(refusal(|c| c.worker_channel_capacity = 0), "worker_channel_capacity must be > 0");
    assert_eq!(
        refusal(|c| c.bridge_backend = "mqtt".to_owned()),
        "bridge_backend must be embedded|kafka|nats, got \"mqtt\""
    );
    assert_eq!(refusal(|c| c.bridge_manifest_path = String::new()), "bridge_manifest_path is required");
    assert_eq!(
        refusal(|c| {
            c.bridge_backend = "nats".to_owned();
            c.bridge_endpoint = Some(String::new());
        }),
        "bridge_endpoint is required for kafka and nats backends"
    );
    assert_eq!(
        refusal(|c| c.state_backend = "disk".to_owned()),
        "state_backend must be memory|redis, got \"disk\""
    );
    assert_eq!(
        refusal(|c| c.state_backend = "redis".to_owned()),
        "state_endpoint is required for the redis backend"
    );
    assert_eq!(
        refusal(|c| c.embedder_backend = "gpu".to_owned()),
        "embedder_backend must be hash|onnx, got \"gpu\""
    );
    assert_eq!(
        refusal(|c| {
            c.embedder_backend = "onnx".to_owned();
            c.onnx_model_path = Some("m".to_owned());
        }),
        "onnx_model_path and onnx_tokenizer_path are required for the onnx backend"
    );
    assert_eq!(refusal(|c| c.onnx_dimension = 0), "onnx_dimension must be greater than zero");
    assert_eq!(
        refusal(|c| c.vector_backend = "disk".to_owned()),
        "vector_backend must be memory|qdrant, got \"disk\""
    );
    assert_eq!(
        refusal(|c| c.vector_backend = "qdrant".to_owned()),
        "qdrant_url is required for the qdrant vector backend"
    );
    assert_eq!(refusal(|c| c.qdrant_collection = String::new()), "qdrant_collection must not be empty");
}
