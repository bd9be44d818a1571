//! What the environment may change in a configuration.

use vstd::prelude::*;
use crate::config;
use crate::config::{ConfigSource, HarnessConfig};
use crate::text;

verus! {

/// The readings of the environment variables that a configuration listens to.
pub struct EnvReadings {
    pub listen: Option<String>,
    pub upstream_url: Option<String>,
    pub chat_path: Option<String>,
    pub auth_header: Option<String>,
    pub auth_scheme: Option<String>,
    pub state_endpoint: Option<String>,
    pub bridge_endpoint: Option<String>,
    pub qdrant_url: Option<String>,
    pub api_key: Option<String>,
}

/// Whether a configuration leaves it to the environment to supply a key.
pub open spec fn awaits_key(c: HarnessConfig) -> bool {
    !config::has_static_key(c) && !c.upstream_authorization_passthrough
}

/// Whether these are readings that `get` can give. The key is asked for only
/// where the configuration awaits one.
pub open spec fn can_read<F: Fn(&str) -> Option<String>>(get: F, c: HarnessConfig, r: EnvReadings) -> bool {
    &&& call_ensures(get, ("AB_LISTEN",), r.listen)
    &&& call_ensures(get, ("AB_UPSTREAM_URL",), r.upstream_url)
    &&& call_ensures(get, ("AB_UPSTREAM_CHAT_PATH",), r.chat_path)
    &&& call_ensures(get, ("AB_UPSTREAM_AUTH_HEADER",), r.auth_header)
    &&& call_ensures(get, ("AB_UPSTREAM_AUTH_SCHEME",), r.auth_scheme)
    &&& call_ensures(get, ("AB_STATE_ENDPOINT",), r.state_endpoint)
    &&& call_ensures(get, ("AB_BRIDGE_ENDPOINT",), r.bridge_endpoint)
    &&& call_ensures(get, ("AB_QDRANT_URL",), r.qdrant_url)
    &&& awaits_key(c) ==> call_ensures(get, ("AB_UPSTREAM_API_KEY",), r.api_key)
}

/// A text under a reading of the environment: an empty reading changes nothing.
pub open spec fn overridden(current: Seq<char>, reading: Option<String>) -> Seq<char> {
    match reading {
        Some(value) => if value@.len() == 0 {
            current
        } else {
            value@
        },
        None => current,
    }
}

/// An optional text under a reading of the environment.
pub open spec fn overridden_opt(current: Option<Seq<char>>, reading: Option<String>) -> Option<Seq<char>> {
    if config::blank(reading) {
        current
    } else {
        text::opt_text(reading)
    }
}

/// Whether `after` is `before` under readings of the environment: the
/// environment beats the file for what it may change, an empty reading counts
/// only as the word before the key, and a key in the environment is taken up
/// only where the file leaves the choice open.
pub open spec fn is_overridden(before: HarnessConfig, r: EnvReadings, after: HarnessConfig) -> bool {
    &&& after.listen@ == overridden(before.listen@, r.listen)
    &&& after.upstream_url@ == overridden(before.upstream_url@, r.upstream_url)
    &&& after.upstream_chat_path@ == overridden(before.upstream_chat_path@, r.chat_path)
    &&& after.upstream_auth_header@ == overridden(before.upstream_auth_header@, r.auth_header)
    &&& after.upstream_auth_scheme@ == (match r.auth_scheme {
        Some(scheme) => scheme@,
        None => before.upstream_auth_scheme@,
    })
    &&& text::opt_text(after.state_endpoint) == overridden_opt(
        text::opt_text(before.state_endpoint),
        r.state_endpoint,
    )
    &&& text::opt_text(after.bridge_endpoint) == overridden_opt(
        text::opt_text(before.bridge_endpoint),
        r.bridge_endpoint,
    )
    &&& text::opt_text(after.qdrant_url) == overridden_opt(text::opt_text(before.qdrant_url), r.qdrant_url)
    &&& text::opt_text(after.upstream_api_key_env) == (if awaits_key(before) && !config::blank(r.api_key) {
        Some("AB_UPSTREAM_API_KEY"@)
    } else {
        text::opt_text(before.upstream_api_key_env)
    })
    &&& after == (HarnessConfig {
        listen: after.listen,
        upstream_url: after.upstream_url,
        upstream_chat_path: after.upstream_chat_path,
        upstream_auth_header: after.upstream_auth_header,
        upstream_auth_scheme: after.upstream_auth_scheme,
        state_endpoint: after.state_endpoint,
        bridge_endpoint: after.bridge_endpoint,
        qdrant_url: after.qdrant_url,
        upstream_api_key_env: after.upstream_api_key_env,
        ..before
    })
}

/// A text under a reading of the environment.
fn prefer(reading: &Option<String>, current: &String) -> (value: String)
    ensures
        value@ == overridden(current@, *reading),
{
    match reading {
        Some(s) => {
            if s.as_str().is_empty() {
                current.clone()
            } else {
                s.clone()
            }
        },
        None => current.clone(),
    }
}

/// A text under a reading of the environment, which may be empty.
fn prefer_even_empty(reading: &Option<String>, current: &String) -> (value: String)
    ensures
        value@ == (match *reading {
            Some(s) => s@,
            None => current@,
        }),
{
    match reading {
        Some(s) => s.clone(),
        None => current.clone(),
    }
}

/// An optional text under a reading of the environment.
fn prefer_opt(reading: &Option<String>, current: &Option<String>) -> (value: Option<String>)
    ensures
        text::opt_text(value) == overridden_opt(text::opt_text(*current), *reading),
{
    match reading {
        Some(s) => {
            if s.as_str().is_empty() {
                text::copy_opt(current)
            } else {
                Some(s.clone())
            }
        },
        None => text::copy_opt(current),
    }
}

impl HarnessConfig {
    /// Applies the environment, which `get` reads. Key material is never
    /// read: that a key is there is enough to select it.
    pub fn apply_env_overrides_from<F: Fn(&str) -> Option<String>>(&mut self, get: F)
        requires
            forall|name: &str| call_requires(get, (name,)),
        ensures
            exists|r: EnvReadings| can_read(get, *old(self), r) && is_overridden(*old(self), r, *final(self)),
    {
        let listen: Option<String> = get("AB_LISTEN");
        let upstream_url: Option<String> = get("AB_UPSTREAM_URL");
        let chat_path: Option<String> = get("AB_UPSTREAM_CHAT_PATH");
        let auth_header: Option<String> = get("AB_UPSTREAM_AUTH_HEADER");
        let auth_scheme: Option<String> = get("AB_UPSTREAM_AUTH_SCHEME");
        let state_endpoint: Option<String> = get("AB_STATE_ENDPOINT");
        let bridge_endpoint: Option<String> = get("AB_BRIDGE_ENDPOINT");
        let qdrant_url: Option<String> = get("AB_QDRANT_URL");
        self.listen = prefer(&listen, &self.listen);
        self.upstream_url = prefer(&upstream_url, &self.upstream_url);
        self.upstream_chat_path = prefer(&chat_path, &self.upstream_chat_path);
        self.upstream_auth_header = prefer(&auth_header, &self.upstream_auth_header);
        self.upstream_auth_scheme = prefer_even_empty(&auth_scheme, &self.upstream_auth_scheme);
        self.state_endpoint = prefer_opt(&state_endpoint, &self.state_endpoint);
        self.bridge_endpoint = prefer_opt(&bridge_endpoint, &self.bridge_endpoint);
        self.qdrant_url = prefer_opt(&qdrant_url, &self.qdrant_url);
        let mut api_key: Option<String> = None;
        if self.upstream_api_key_env.is_none() && self.upstream_api_key_file.is_none()
            && !self.upstream_authorization_passthrough {
            api_key = get("AB_UPSTREAM_API_KEY");
            if prefer_opt(&api_key, &None).is_some() {
                self.upstream_api_key_env = Some("AB_UPSTREAM_API_KEY".to_owned());
            }
        }
        proof {
            let r = EnvReadings {
                listen,
                upstream_url,
                chat_path,
                auth_header,
                auth_scheme,
                state_endpoint,
                bridge_endpoint,
                qdrant_url,
                api_key,
            };
            assert(can_read(get, *old(self), r));
            assert(is_overridden(*old(self), r, *self));
        }
    }
}

/// The environment never displaces a key source that the file has chosen, nor
/// adds one where clients bring their own credential.
pub proof fn law_environment_respects_the_key_source(before: HarnessConfig, r: EnvReadings, after: HarnessConfig)
    requires
        is_overridden(before, r, after),
    ensures
        !awaits_key(before) ==> after.upstream_api_key_file == before.upstream_api_key_file && text::opt_text(
            after.upstream_api_key_env,
        ) == text::opt_text(before.upstream_api_key_env),
        after.upstream_api_key_file == before.upstream_api_key_file,
        after.upstream_authorization_passthrough == before.upstream_authorization_passthrough,
{
}

/// Applying the same readings again changes nothing more.
pub proof fn law_overrides_are_idempotent(
    before: HarnessConfig,
    r: EnvReadings,
    once: HarnessConfig,
    twice: HarnessConfig,
)
    requires
        is_overridden(before, r, once),
        is_overridden(once, r, twice),
    ensures
        twice.listen@ == once.listen@,
        twice.upstream_url@ == once.upstream_url@,
        twice.upstream_chat_path@ == once.upstream_chat_path@,
        twice.upstream_auth_header@ == once.upstream_auth_header@,
        twice.upstream_auth_scheme@ == once.upstream_auth_scheme@,
        text::opt_text(twice.state_endpoint) == text::opt_text(once.state_endpoint),
        text::opt_text(twice.bridge_endpoint) == text::opt_text(once.bridge_endpoint),
        text::opt_text(twice.qdrant_url) == text::opt_text(once.qdrant_url),
        text::opt_text(twice.upstream_api_key_env) == text::opt_text(once.upstream_api_key_env),
{
}

/// What stands against starting with a configuration, if anything does: no
/// configuration was found and the environment names no provider, or the
/// configuration is not sound.
pub open spec fn startup_fault(c: HarnessConfig, source: ConfigSource) -> Option<Seq<char>> {
    if c.upstream_url@.len() == 0 && source is BuiltIn {
        Some(
            "no configuration found and AB_UPSTREAM_URL is not set.\nQuick start (pick one):\n  abctl init --preset openai        # write an annotated agentbridge.toml\n  AB_UPSTREAM_URL=http://127.0.0.1:11434 agent-bridge   # zero-config\nSearched: $AB_CONFIG, "@
                + text::joined(
                seq![config::FIRST_SEARCH_PATH@, config::SECOND_SEARCH_PATH@, config::THIRD_SEARCH_PATH@],
                ", "@,
            ),
        )
    } else {
        match config::config_fault(c) {
            Some(fault) => Some(source.words() + ": "@ + fault),
            None => None,
        }
    }
}

impl HarnessConfig {
    /// Whether the harness can start with this configuration.
    pub fn check_startup(&self, source: &ConfigSource) -> (checked: Result<(), String>)
        ensures
            match checked {
                Ok(()) => startup_fault(*self, *source) is None,
                Err(e) => startup_fault(*self, *source) == Some(e@),
            },
    {
        let built_in: bool = match source {
            ConfigSource::BuiltIn => true,
            _ => false,
        };
        if self.upstream_url.as_str().is_empty() && built_in {
            let searched: String = text::join(&config::config_search_paths(), ", ");
            return Err(
                text::concat2(
                    "no configuration found and AB_UPSTREAM_URL is not set.\nQuick start (pick one):\n  abctl init --preset openai        # write an annotated agentbridge.toml\n  AB_UPSTREAM_URL=http://127.0.0.1:11434 agent-bridge   # zero-config\nSearched: $AB_CONFIG, ",
                    searched.as_str(),
                ),
            );
        }
        match self.validate() {
            Ok(()) => Ok(()),
            Err(fault) => Err(text::concat3(source.describe().as_str(), ": ", fault.as_str())),
        }
    }
}

/// A sound configuration has one way at most of authenticating to the
/// provider, and never passes an identity token on to it.
pub proof fn law_sound_config_is_unambiguous(c: HarnessConfig)
    requires
        config::config_fault(c) is None,
    ensures
        !(c.upstream_api_key_env is Some && c.upstream_api_key_file is Some),
        c.upstream_authorization_passthrough ==> !config::has_static_key(c) && !c.require_identity,
        !(c.tool_upstream_bearer_env is Some && c.tool_upstream_bearer_file is Some),
        c.require_identity ==> !config::blank(c.identity_jwks_url) || !config::blank(
            c.identity_hmac_secret_file,
        ),
        crate::headers::is_header_name(c.upstream_auth_header@),
{
}

/// The built-in configuration is sound as soon as it has the URL of a
/// provider, and not before.
pub proof fn law_builtin_config_lacks_only_a_provider(defaults: HarnessConfig, c: HarnessConfig)
    requires
        config::is_builtin(defaults),
        c == (HarnessConfig { upstream_url: c.upstream_url, ..defaults }),
    ensures
        config::config_fault(c) is None <==> c.upstream_url@.len() > 0,
{
    reveal_strlit("/v1/chat/completions");
    reveal_strlit("/");
    reveal_strlit("authorization");
    reveal_strlit("Bearer");
    reveal_strlit("dev-hmac");
    reveal_strlit("manifests/bridge.example.yaml");
    reveal_strlit("agent_steps");
    reveal_strlit("memory");
    reveal_strlit("hash");
    reveal_strlit("redis");
    reveal_strlit("qdrant");
    reveal_strlit("onnx");
    assert("/v1/chat/completions"@.take(1) =~= "/"@);
    assert("memory"@.len() != "redis"@.len());
    assert("hash"@[0] != "onnx"@[0]);
    assert("memory"@[0] != "qdrant"@[0]);
    crate::session::law_workflow_words_round_trip(crate::session::Workflow::Unsigned);
    let header = "authorization"@;
    assert forall|i: int| 0 <= i < header.len() implies crate::headers::is_name_char(#[trigger] header[i]) by {
        assert('a' <= header[i] <= 'z');
    }
    let scheme = "Bearer"@;
    assert forall|i: int| 0 <= i < scheme.len() implies 0x21 <= (#[trigger] scheme[i]) as u32 <= 0x7e by {
        assert('B' <= scheme[i] <= 'r');
    }
}

/// Whether a variable of the environment reads as a value, and as no other.
pub open spec fn reads_as<F: Fn(&str) -> Option<String>>(get: F, name: &str, value: Option<String>) -> bool {
    forall|found: Option<String>| #[trigger] call_ensures(get, (name,), found) ==> found == value
}

/// Each setting is taken from its own variable, where that is set and not
/// empty, and stays as it was configured otherwise. Only the word before the
/// key may be set to nothing.
pub proof fn law_settings_are_read_from_their_variables<F: Fn(&str) -> Option<String>>(
    get: F,
    before: HarnessConfig,
    r: EnvReadings,
    after: HarnessConfig,
    value: String,
)
    requires
        can_read(get, before, r),
        is_overridden(before, r, after),
        value@.len() > 0,
    ensures
        reads_as(get, "AB_LISTEN", Some(value)) ==> after.listen@ == value@,
        reads_as(get, "AB_LISTEN", None) ==> after.listen@ == before.listen@,
        reads_as(get, "AB_UPSTREAM_URL", Some(value)) ==> after.upstream_url@ == value@,
        reads_as(get, "AB_UPSTREAM_URL", None) ==> after.upstream_url@ == before.upstream_url@,
        reads_as(get, "AB_UPSTREAM_CHAT_PATH", Some(value)) ==> after.upstream_chat_path@ == value@,
        reads_as(get, "AB_UPSTREAM_CHAT_PATH", None) ==> after.upstream_chat_path@ == before.upstream_chat_path@,
        reads_as(get, "AB_UPSTREAM_AUTH_HEADER", Some(value)) ==> after.upstream_auth_header@ == value@,
        reads_as(get, "AB_UPSTREAM_AUTH_HEADER", None) ==> after.upstream_auth_header@ == before.upstream_auth_header@,
        reads_as(get, "AB_UPSTREAM_AUTH_SCHEME", Some(value)) ==> after.upstream_auth_scheme@ == value@,
        reads_as(get, "AB_UPSTREAM_AUTH_SCHEME", None) ==> after.upstream_auth_scheme@ == before.upstream_auth_scheme@,
        reads_as(get, "AB_STATE_ENDPOINT", Some(value)) ==> text::opt_text(after.state_endpoint) == Some(value@),
        reads_as(get, "AB_STATE_ENDPOINT", None) ==> text::opt_text(after.state_endpoint) == text::opt_text(
            before.state_endpoint,
        ),
        reads_as(get, "AB_BRIDGE_ENDPOINT", Some(value)) ==> text::opt_text(after.bridge_endpoint) == Some(value@),
        reads_as(get, "AB_BRIDGE_ENDPOINT", None) ==> text::opt_text(after.bridge_endpoint) == text::opt_text(
            before.bridge_endpoint,
        ),
        reads_as(get, "AB_QDRANT_URL", Some(value)) ==> text::opt_text(after.qdrant_url) == Some(value@),
        reads_as(get, "AB_QDRANT_URL", None) ==> text::opt_text(after.qdrant_url) == text::opt_text(before.qdrant_url),
{
    assert(call_ensures(get, ("AB_LISTEN",), r.listen));
    assert(call_ensures(get, ("AB_UPSTREAM_URL",), r.upstream_url));
    assert(call_ensures(get, ("AB_UPSTREAM_CHAT_PATH",), r.chat_path));
    assert(call_ensures(get, ("AB_UPSTREAM_AUTH_HEADER",), r.auth_header));
    assert(call_ensures(get, ("AB_UPSTREAM_AUTH_SCHEME",), r.auth_scheme));
    assert(call_ensures(get, ("AB_STATE_ENDPOINT",), r.state_endpoint));
    assert(call_ensures(get, ("AB_BRIDGE_ENDPOINT",), r.bridge_endpoint));
    assert(call_ensures(get, ("AB_QDRANT_URL",), r.qdrant_url));
}

/// An empty variable leaves a setting alone, except for the word before the
/// key. A key in the environment is named as the source of the key exactly
/// where the configuration names none and passes no credential on. Nothing
/// else of the configuration is touched.
pub proof fn law_empty_variables_change_nothing(before: HarnessConfig, r: EnvReadings, after: HarnessConfig)
    requires
        is_overridden(before, r, after),
    ensures
        (r.listen matches Some(v) && v@.len() == 0) ==> after.listen@ == before.listen@,
        (r.upstream_url matches Some(v) && v@.len() == 0) ==> after.upstream_url@ == before.upstream_url@,
        (r.chat_path matches Some(v) && v@.len() == 0) ==> after.upstream_chat_path@ == before.upstream_chat_path@,
        (r.auth_header matches Some(v) && v@.len() == 0) ==> after.upstream_auth_header@ == before.upstream_auth_header@,
        (r.auth_scheme matches Some(v) && v@.len() == 0) ==> after.upstream_auth_scheme@.len() == 0,
        (r.api_key matches Some(v) && v@.len() > 0) && before.upstream_api_key_env is None && before.upstream_api_key_file
            is None && !before.upstream_authorization_passthrough ==> text::opt_text(after.upstream_api_key_env) == Some(
            "AB_UPSTREAM_API_KEY"@,
        ),
        config::blank(r.api_key) ==> text::opt_text(after.upstream_api_key_env) == text::opt_text(
            before.upstream_api_key_env,
        ),
        after.require_identity == before.require_identity,
        after.consequential_tools == before.consequential_tools,
        after.default_workflow == before.default_workflow,
        after.budget_max_tokens == before.budget_max_tokens,
        after.enforce_identity_scopes == before.enforce_identity_scopes,
        after.upstream_api_key_file == before.upstream_api_key_file,
        after.tool_upstream_url == before.tool_upstream_url,
{
}

/// The harness starts exactly where its configuration is sound; what is wrong
/// is told with the source of the configuration.
pub proof fn law_only_sound_configs_start(c: HarnessConfig, source: ConfigSource)
    ensures
        startup_fault(c, source) is None <==> config::config_fault(c) is None,
        config::config_fault(c) is Some && c.upstream_url@.len() > 0 ==> startup_fault(c, source) == Some(
            source.words() + ": "@ + config::config_fault(c)->0,
        ),
{
}

/// The environment changes nothing but what it may change.
pub proof fn law_the_rest_stays_as_configured(before: HarnessConfig, r: EnvReadings, after: HarnessConfig)
    requires
        is_overridden(before, r, after),
    ensures
        after.config_version == before.config_version,
        after.tool_upstream_url == before.tool_upstream_url,
        after.upstream_http2_prior_knowledge == before.upstream_http2_prior_knowledge,
        after.upstream_read_timeout_s == before.upstream_read_timeout_s,
        after.upstream_api_key_file == before.upstream_api_key_file,
        after.upstream_authorization_passthrough == before.upstream_authorization_passthrough,
        after.tool_upstream_bearer_env == before.tool_upstream_bearer_env,
        after.tool_upstream_bearer_file == before.tool_upstream_bearer_file,
        after.require_identity == before.require_identity,
        after.audience == before.audience,
        after.identity_jwks_url == before.identity_jwks_url,
        after.identity_jwks_refresh_s == before.identity_jwks_refresh_s,
        after.identity_allowed_issuers == before.identity_allowed_issuers,
        after.identity_hmac_secret_file == before.identity_hmac_secret_file,
        after.identity_hmac_kid == before.identity_hmac_kid,
        after.enforce_identity_scopes == before.enforce_identity_scopes,
        after.chat_scope == before.chat_scope,
        after.session_close_scope == before.session_close_scope,
        after.session_promote_scope == before.session_promote_scope,
        after.default_workflow == before.default_workflow,
        after.consequential_tools == before.consequential_tools,
        after.tool_schema_dir == before.tool_schema_dir,
        after.require_tool_schema == before.require_tool_schema,
        after.wasm_policy_paths == before.wasm_policy_paths,
        after.session_idle_close_s == before.session_idle_close_s,
        after.atif_spool_dir == before.atif_spool_dir,
        after.bridge_data_dir == before.bridge_data_dir,
        after.bridge_backend == before.bridge_backend,
        after.bridge_manifest_path == before.bridge_manifest_path,
        after.state_backend == before.state_backend,
        after.embedder_backend == before.embedder_backend,
        after.onnx_model_path == before.onnx_model_path,
        after.onnx_tokenizer_path == before.onnx_tokenizer_path,
        after.onnx_dimension == before.onnx_dimension,
        after.vector_backend == before.vector_backend,
        after.qdrant_collection == before.qdrant_collection,
        after.worker_channel_capacity == before.worker_channel_capacity,
        after.strict_stage_budget == before.strict_stage_budget,
        after.compression_enabled == before.compression_enabled,
        after.budget_max_tokens == before.budget_max_tokens,
        after.reconcile_tick_s == before.reconcile_tick_s,
        after.max_request_bytes == before.max_request_bytes,
        after.dashboard_enabled == before.dashboard_enabled,
{
}

} // verus!
