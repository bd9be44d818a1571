//! Configuration: its fields and their defaults, what the environment may
//! override, and what a sound configuration is.

use vstd::prelude::*;
use crate::headers;
use crate::session::Workflow;
use crate::text;

verus! {

/// Version of the configuration format that this build reads.
pub const CONFIG_VERSION: u32 = 1;

/// The configuration of the harness.
#[derive(Debug, Clone)]
pub struct HarnessConfig {
    /// Version of the configuration format.
    pub config_version: u32,
    /// Address to listen on.
    pub listen: String,
    /// Base URL of the model provider.
    pub upstream_url: String,
    /// URL of the tool server; without one, tool calls are only judged.
    pub tool_upstream_url: Option<String>,
    /// Speak cleartext HTTP/2 to the provider at once.
    pub upstream_http2_prior_knowledge: bool,
    /// Seconds that the provider may stay silent.
    pub upstream_read_timeout_s: Option<u64>,
    /// Path of chat completions below the base URL.
    pub upstream_chat_path: String,
    /// Environment variable that holds the provider key.
    pub upstream_api_key_env: Option<String>,
    /// File that holds the provider key.
    pub upstream_api_key_file: Option<String>,
    /// Header field that carries the provider key.
    pub upstream_auth_header: String,
    /// Word before the key; none for a raw key.
    pub upstream_auth_scheme: String,
    /// Pass the client's own credential on to the provider.
    pub upstream_authorization_passthrough: bool,
    /// Environment variable that holds the tool server's token.
    pub tool_upstream_bearer_env: Option<String>,
    /// File that holds the tool server's token.
    pub tool_upstream_bearer_file: Option<String>,
    /// Refuse requests without an identity.
    pub require_identity: bool,
    /// Audience of identity tokens.
    pub audience: String,
    /// Where the keys of the identity provider are published.
    pub identity_jwks_url: Option<String>,
    /// Seconds between two readings of those keys.
    pub identity_jwks_refresh_s: u64,
    /// Issuers that are accepted; any, if empty.
    pub identity_allowed_issuers: Vec<String>,
    /// File that holds a shared secret for development.
    pub identity_hmac_secret_file: Option<String>,
    /// Key id of that secret.
    pub identity_hmac_kid: String,
    /// Hold identities to their scopes.
    pub enforce_identity_scopes: bool,
    /// Scope for chat requests.
    pub chat_scope: String,
    /// Scope for closing sessions.
    pub session_close_scope: String,
    /// Scope for promoting sessions.
    pub session_promote_scope: String,
    /// Workflow of a request that names none.
    pub default_workflow: String,
    /// Tools that only a signed workflow may use.
    pub consequential_tools: Vec<String>,
    /// Directory of the tool schemas.
    pub tool_schema_dir: Option<String>,
    /// Refuse tools without a schema.
    pub require_tool_schema: bool,
    /// Policy modules, in order.
    pub wasm_policy_paths: Vec<String>,
    /// Idle seconds after which a session is closed.
    pub session_idle_close_s: u64,
    /// Directory of the trajectory spool.
    pub atif_spool_dir: String,
    /// Directory of the embedded event bridge.
    pub bridge_data_dir: String,
    /// Event bridge: `embedded`, `kafka` or `nats`.
    pub bridge_backend: String,
    /// Manifest of the bridge's topics.
    pub bridge_manifest_path: String,
    /// Where a network bridge is.
    pub bridge_endpoint: Option<String>,
    /// Quota state: `memory` or `redis`.
    pub state_backend: String,
    /// Where the quota state is.
    pub state_endpoint: Option<String>,
    /// Embedder: `hash` or `onnx`.
    pub embedder_backend: String,
    /// Model of the ONNX embedder.
    pub onnx_model_path: Option<String>,
    /// Tokenizer of the ONNX embedder.
    pub onnx_tokenizer_path: Option<String>,
    /// Width of the ONNX embedder.
    pub onnx_dimension: usize,
    /// Vector store: `memory` or `qdrant`.
    pub vector_backend: String,
    /// Where the vector store is.
    pub qdrant_url: Option<String>,
    /// Collection in the vector store.
    pub qdrant_collection: String,
    /// Audit jobs that may wait.
    pub worker_channel_capacity: usize,
    /// Count stages that take too long.
    pub strict_stage_budget: bool,
    /// Compress requests.
    pub compression_enabled: bool,
    /// Tokens that a session may use; any number, if absent.
    pub budget_max_tokens: Option<u64>,
    /// Seconds between two rounds of the reconciler.
    pub reconcile_tick_s: u64,
    /// Most bytes of a request body.
    pub max_request_bytes: usize,
    /// Serve the dashboard.
    pub dashboard_enabled: bool,
}

/// The default format version.
pub fn default_config_version() -> (v: u32)
    ensures
        v == 1,
{
    CONFIG_VERSION
}

/// The default seconds between two readings of the identity keys.
pub fn default_jwks_refresh() -> (v: u64)
    ensures
        v == 300,
{
    300
}

/// The default idle seconds.
pub fn default_idle() -> (v: u64)
    ensures
        v == 900,
{
    900
}

/// The default width of the ONNX embedder.
pub fn default_onnx_dimension() -> (v: usize)
    ensures
        v == 384,
{
    384
}

/// The default number of waiting audit jobs.
pub fn default_channel_cap() -> (v: usize)
    ensures
        v == 32768,
{
    32768
}

/// The default seconds between two rounds of the reconciler.
pub fn default_reconcile_tick() -> (v: u64)
    ensures
        v == 5,
{
    5
}

/// The default listen address.
pub fn default_listen() -> (v: String)
    ensures
        v@ == "127.0.0.1:8484"@,
{
    "127.0.0.1:8484".to_owned()
}

/// The default audience.
pub fn default_audience() -> (v: String)
    ensures
        v@ == "agent-bridge"@,
{
    "agent-bridge".to_owned()
}

/// The default chat path.
pub fn default_chat_path() -> (v: String)
    ensures
        v@ == "/v1/chat/completions"@,
{
    "/v1/chat/completions".to_owned()
}

/// The default header field for the key.
pub fn default_auth_header() -> (v: String)
    ensures
        v@ == "authorization"@,
{
    "authorization".to_owned()
}

/// The default word before the key.
pub fn default_auth_scheme() -> (v: String)
    ensures
        v@ == "Bearer"@,
{
    "Bearer".to_owned()
}

/// The default key id of a development secret.
pub fn default_hmac_kid() -> (v: String)
    ensures
        v@ == "dev-hmac"@,
{
    "dev-hmac".to_owned()
}

/// The default scope for chat.
pub fn default_chat_scope() -> (v: String)
    ensures
        v@ == "chat:write"@,
{
    "chat:write".to_owned()
}

/// The default scope for closing.
pub fn default_close_scope() -> (v: String)
    ensures
        v@ == "session:close"@,
{
    "session:close".to_owned()
}

/// The default scope for promoting.
pub fn default_promote_scope() -> (v: String)
    ensures
        v@ == "session:promote"@,
{
    "session:promote".to_owned()
}

/// The default spool directory.
pub fn default_spool() -> (v: String)
    ensures
        v@ == "spool/atif"@,
{
    "spool/atif".to_owned()
}

/// The default bridge directory.
pub fn default_bridge() -> (v: String)
    ensures
        v@ == "data/bridge"@,
{
    "data/bridge".to_owned()
}

/// The default bridge.
pub fn default_bridge_backend() -> (v: String)
    ensures
        v@ == "embedded"@,
{
    "embedded".to_owned()
}

/// The default bridge manifest.
pub fn default_bridge_manifest() -> (v: String)
    ensures
        v@ == "manifests/bridge.example.yaml"@,
{
    "manifests/bridge.example.yaml".to_owned()
}

/// The default quota state.
pub fn default_state_backend() -> (v: String)
    ensures
        v@ == "memory"@,
{
    "memory".to_owned()
}

/// The default embedder.
pub fn default_embedder_backend() -> (v: String)
    ensures
        v@ == "hash"@,
{
    "hash".to_owned()
}

/// The default vector store.
pub fn default_vector_backend() -> (v: String)
    ensures
        v@ == "memory"@,
{
    "memory".to_owned()
}

/// The default collection.
pub fn default_qdrant_collection() -> (v: String)
    ensures
        v@ == "agent_steps"@,
{
    "agent_steps".to_owned()
}

/// What is on unless it is switched off.
pub fn default_true() -> (v: bool)
    ensures
        v,
{
    true
}

/// Whether requests are compressed by default.
pub fn default_compression() -> (v: bool)
    ensures
        v,
{
    true
}

/// The default workflow.
pub fn default_workflow() -> (v: String)
    ensures
        v@ == "unsigned"@,
{
    Workflow::Unsigned.as_str().to_owned()
}

/// The tools that only a signed workflow may use by default.
pub fn default_consequential_tools() -> (v: Vec<String>)
    ensures
        text::texts(v@) == seq!["db_write"@, "payout"@, "merge"@, "deploy"@],
{
    let mut v: Vec<String> = Vec::new();
    v.push("db_write".to_owned());
    v.push("payout".to_owned());
    v.push("merge".to_owned());
    v.push("deploy".to_owned());
    assert(text::texts(v@) =~= seq!["db_write"@, "payout"@, "merge"@, "deploy"@]);
    v
}

/// The default directory of the tool schemas.
pub fn default_tool_schema_dir() -> (v: Option<String>)
    ensures
        text::opt_text(v) == Some("config/tool-schemas"@),
{
    Some("config/tool-schemas".to_owned())
}

/// The default policy modules.
pub fn default_wasm_policies() -> (v: Vec<String>)
    ensures
        text::texts(v@) == seq!["config/policies/payload_limit.wat"@],
{
    let mut v: Vec<String> = Vec::new();
    v.push("config/policies/payload_limit.wat".to_owned());
    assert(text::texts(v@) =~= seq!["config/policies/payload_limit.wat"@]);
    v
}

/// Where a configuration came from.
#[derive(Debug)]
pub enum ConfigSource {
    /// A file.
    File(String),
    /// The built-in defaults.
    BuiltIn,
}

impl ConfigSource {
    /// The words for a source.
    pub open spec fn words(self) -> Seq<char> {
        match self {
            ConfigSource::File(path) => path@,
            ConfigSource::BuiltIn => "built-in defaults (zero-config)"@,
        }
    }

    /// The source in words.
    pub fn describe(&self) -> (words: String)
        ensures
            words@ == self.words(),
    {
        match self {
            ConfigSource::File(path) => path.clone(),
            ConfigSource::BuiltIn => "built-in defaults (zero-config)".to_owned(),
        }
    }
}

/// First place where a configuration is looked for.
pub const FIRST_SEARCH_PATH: &'static str = "agentbridge.toml";

/// Second place where a configuration is looked for.
pub const SECOND_SEARCH_PATH: &'static str = "config/harness.toml";

/// Third place where a configuration is looked for.
pub const THIRD_SEARCH_PATH: &'static str = "config/harness.example.toml";

/// The places where a configuration is looked for, in order.
pub fn config_search_paths() -> (paths: Vec<String>)
    ensures
        text::texts(paths@) == seq![FIRST_SEARCH_PATH@, SECOND_SEARCH_PATH@, THIRD_SEARCH_PATH@],
{
    let mut paths: Vec<String> = Vec::new();
    paths.push(FIRST_SEARCH_PATH.to_owned());
    paths.push(SECOND_SEARCH_PATH.to_owned());
    paths.push(THIRD_SEARCH_PATH.to_owned());
    assert(text::texts(paths@) =~= seq![FIRST_SEARCH_PATH@, SECOND_SEARCH_PATH@, THIRD_SEARCH_PATH@]);
    paths
}

/// Where the configuration is taken from. `explicit` is the file that the
/// environment names, with whether it is one; `first`, `second` and `third`
/// tell which of the searched places hold a file. A file that is named but
/// missing is an error: a slip must not fall through to another file.
pub fn resolve_config_source(explicit: Option<(String, bool)>, first: bool, second: bool, third: bool) -> (
source: Result<ConfigSource, String>)
    ensures
        match explicit {
            Some((path, is_file)) => if is_file {
                source matches Ok(ConfigSource::File(p)) && p@ == path@
            } else {
                source matches Err(e) && e@ == "AB_CONFIG points to "@ + path@
                    + " which does not exist or is not a file"@
            },
            None => match source {
                Ok(ConfigSource::File(p)) => (first || second || third) && p@ == (if first {
                    FIRST_SEARCH_PATH@
                } else if second {
                    SECOND_SEARCH_PATH@
                } else {
                    THIRD_SEARCH_PATH@
                }),
                Ok(ConfigSource::BuiltIn) => !first && !second && !third,
                Err(_) => false,
            },
        },
{
    match explicit {
        Some((path, is_file)) => {
            if is_file {
                Ok(ConfigSource::File(path))
            } else {
                Err(
                    text::concat3(
                        "AB_CONFIG points to ",
                        path.as_str(),
                        " which does not exist or is not a file",
                    ),
                )
            }
        },
        None => {
            if first {
                Ok(ConfigSource::File(FIRST_SEARCH_PATH.to_owned()))
            } else if second {
                Ok(ConfigSource::File(SECOND_SEARCH_PATH.to_owned()))
            } else if third {
                Ok(ConfigSource::File(THIRD_SEARCH_PATH.to_owned()))
            } else {
                Ok(ConfigSource::BuiltIn)
            }
        },
    }
}

/// Whether an optional text is missing or empty.
pub open spec fn blank(s: Option<String>) -> bool {
    match s {
        Some(t) => t@.len() == 0,
        None => true,
    }
}

/// Whether an optional text is there and empty.
pub open spec fn set_but_empty(s: Option<String>) -> bool {
    s matches Some(t) && t@.len() == 0
}

/// Whether all characters are visible ASCII, without spaces.
pub open spec fn is_visible(s: Seq<char>) -> bool {
    forall|i: int| 0 <= i < s.len() ==> 0x21 <= (#[trigger] s[i]) as u32 <= 0x7e
}

/// Whether a provider key is configured.
pub open spec fn has_static_key(c: HarnessConfig) -> bool {
    c.upstream_api_key_env is Some || c.upstream_api_key_file is Some
}

/// What is wrong with how a configuration authenticates to the provider and
/// to the tool server, if anything is.
pub open spec fn auth_fault(c: HarnessConfig) -> Option<Seq<char>> {
    if set_but_empty(c.upstream_api_key_env) {
        Some("upstream_api_key_env must not be empty when set"@)
    } else if set_but_empty(c.upstream_api_key_file) {
        Some("upstream_api_key_file must not be empty when set"@)
    } else if c.upstream_api_key_env is Some && c.upstream_api_key_file is Some {
        Some("set only one of upstream_api_key_env or upstream_api_key_file (ambiguous key source)"@)
    } else if c.upstream_authorization_passthrough && has_static_key(c) {
        Some(
            "upstream_authorization_passthrough conflicts with upstream_api_key_env/file: choose one auth mode"@,
        )
    } else if c.upstream_authorization_passthrough && c.require_identity {
        Some(
            "upstream_authorization_passthrough cannot be combined with require_identity: the Authorization header carries the NHI token, which must never be sent upstream"@,
        )
    } else if !headers::is_header_name(c.upstream_auth_header@) {
        Some(
            "upstream_auth_header "@ + headers::debug_text(c.upstream_auth_header@)
                + " is not a valid HTTP header name"@,
        )
    } else if !is_visible(c.upstream_auth_scheme@) {
        Some("upstream_auth_scheme must contain only visible ASCII with no spaces (use \"\" for a raw key)"@)
    } else if c.tool_upstream_bearer_env is Some && c.tool_upstream_bearer_file is Some {
        Some("set only one of tool_upstream_bearer_env or tool_upstream_bearer_file (ambiguous token source)"@)
    } else if (c.tool_upstream_bearer_env is Some || c.tool_upstream_bearer_file is Some) && blank(
        c.tool_upstream_url,
    ) {
        Some("tool_upstream_bearer_env/file requires tool_upstream_url to be set"@)
    } else {
        None
    }
}

/// What is wrong with the backends of a configuration, if anything is.
pub open spec fn backend_fault(c: HarnessConfig) -> Option<Seq<char>> {
    let bridge = c.bridge_backend@;
    let state = c.state_backend@;
    let embedder = c.embedder_backend@;
    let vector = c.vector_backend@;
    if bridge != "embedded"@ && bridge != "kafka"@ && bridge != "nats"@ {
        Some("bridge_backend must be embedded|kafka|nats, got "@ + headers::debug_text(bridge))
    } else if c.bridge_manifest_path@.len() == 0 {
        Some("bridge_manifest_path is required"@)
    } else if bridge != "embedded"@ && blank(c.bridge_endpoint) {
        Some("bridge_endpoint is required for kafka and nats backends"@)
    } else if state != "memory"@ && state != "redis"@ {
        Some("state_backend must be memory|redis, got "@ + headers::debug_text(state))
    } else if state == "redis"@ && blank(c.state_endpoint) {
        Some("state_endpoint is required for the redis backend"@)
    } else if embedder != "hash"@ && embedder != "onnx"@ {
        Some("embedder_backend must be hash|onnx, got "@ + headers::debug_text(embedder))
    } else if embedder == "onnx"@ && (blank(c.onnx_model_path) || blank(c.onnx_tokenizer_path)) {
        Some("onnx_model_path and onnx_tokenizer_path are required for the onnx backend"@)
    } else if c.onnx_dimension == 0 {
        Some("onnx_dimension must be greater than zero"@)
    } else if vector != "memory"@ && vector != "qdrant"@ {
        Some("vector_backend must be memory|qdrant, got "@ + headers::debug_text(vector))
    } else if vector == "qdrant"@ && blank(c.qdrant_url) {
        Some("qdrant_url is required for the qdrant vector backend"@)
    } else if c.qdrant_collection@.len() == 0 {
        Some("qdrant_collection must not be empty"@)
    } else {
        None
    }
}

/// What is wrong with a configuration, if anything is: the first fault in the
/// order in which the parts are looked at.
pub open spec fn config_fault(c: HarnessConfig) -> Option<Seq<char>> {
    if c.config_version != CONFIG_VERSION {
        Some(
            "unsupported config_version "@ + text::decimal_digits(c.config_version as nat)
                + " (this build supports 1)"@,
        )
    } else if c.upstream_url@.len() == 0 {
        Some("upstream_url is required"@)
    } else if !text::has_prefix(c.upstream_chat_path@, "/"@) {
        Some("upstream_chat_path must start with '/', got "@ + headers::debug_text(c.upstream_chat_path@))
    } else if auth_fault(c) is Some {
        auth_fault(c)
    } else if crate::session::workflow_named(c.default_workflow@) is None {
        Some("default_workflow must be signed|unsigned, got "@ + headers::debug_text(c.default_workflow@))
    } else if c.require_identity && blank(c.identity_jwks_url) && blank(c.identity_hmac_secret_file) {
        Some("require_identity=true needs identity_jwks_url or identity_hmac_secret_file"@)
    } else if c.identity_jwks_refresh_s == 0 {
        Some("identity_jwks_refresh_s must be greater than zero"@)
    } else if c.identity_hmac_kid@.len() == 0 {
        Some("identity_hmac_kid must not be empty"@)
    } else if c.worker_channel_capacity == 0 {
        Some("worker_channel_capacity must be > 0"@)
    } else {
        backend_fault(c)
    }
}

/// Whether an optional text is missing or empty.
fn is_blank(s: &Option<String>) -> (b: bool)
    ensures
        b == blank(*s),
{
    match s {
        Some(t) => t.as_str().is_empty(),
        None => true,
    }
}

/// Whether all characters are visible ASCII, without spaces.
fn all_visible(s: &str) -> (b: bool)
    ensures
        b == is_visible(s@),
{
    let chars: Vec<char> = text::chars_of(s);
    let mut i: usize = 0;
    while i < chars.len()
        invariant
            i <= chars@.len(),
            chars@ == s@,
            forall|k: int| 0 <= k < i ==> 0x21 <= (#[trigger] s@[k]) as u32 <= 0x7e,
        decreases chars.len() - i,
    {
        let n: u32 = chars[i] as u32;
        if n < 0x21 || n > 0x7e {
            assert(!(0x21 <= s@[i as int] as u32 <= 0x7e));
            return false;
        }
        i += 1;
    }
    true
}

impl HarnessConfig {
    /// What is wrong with how the configuration authenticates.
    fn check_auth(&self) -> (checked: Result<(), String>)
        ensures
            match checked {
                Ok(()) => auth_fault(*self) is None,
                Err(e) => auth_fault(*self) == Some(e@),
            },
    {
        if self.upstream_api_key_env.is_some() && is_blank(&self.upstream_api_key_env) {
            return Err("upstream_api_key_env must not be empty when set".to_owned());
        }
        if self.upstream_api_key_file.is_some() && is_blank(&self.upstream_api_key_file) {
            return Err("upstream_api_key_file must not be empty when set".to_owned());
        }
        if self.upstream_api_key_env.is_some() && self.upstream_api_key_file.is_some() {
            return Err(
                "set only one of upstream_api_key_env or upstream_api_key_file (ambiguous key source)".to_owned(),
            );
        }
        let has_static_key: bool = self.upstream_api_key_env.is_some() || self.upstream_api_key_file.is_some();
        if self.upstream_authorization_passthrough && has_static_key {
            return Err(
                "upstream_authorization_passthrough conflicts with upstream_api_key_env/file: choose one auth mode".to_owned(),
            );
        }
        if self.upstream_authorization_passthrough && self.require_identity {
            return Err(
                "upstream_authorization_passthrough cannot be combined with require_identity: the Authorization header carries the NHI token, which must never be sent upstream".to_owned(),
            );
        }
        if !headers::header_name_is_valid(self.upstream_auth_header.as_str()) {
            return Err(
                text::concat3(
                    "upstream_auth_header ",
                    headers::quoted(self.upstream_auth_header.as_str()).as_str(),
                    " is not a valid HTTP header name",
                ),
            );
        }
        if !all_visible(self.upstream_auth_scheme.as_str()) {
            return Err(
                "upstream_auth_scheme must contain only visible ASCII with no spaces (use \"\" for a raw key)".to_owned(),
            );
        }
        let has_token: bool = self.tool_upstream_bearer_env.is_some() || self.tool_upstream_bearer_file.is_some();
        if self.tool_upstream_bearer_env.is_some() && self.tool_upstream_bearer_file.is_some() {
            return Err(
                "set only one of tool_upstream_bearer_env or tool_upstream_bearer_file (ambiguous token source)".to_owned(),
            );
        }
        if has_token && is_blank(&self.tool_upstream_url) {
            return Err("tool_upstream_bearer_env/file requires tool_upstream_url to be set".to_owned());
        }
        Ok(())
    }

    /// What is wrong with the backends.
    fn check_backends(&self) -> (checked: Result<(), String>)
        ensures
            match checked {
                Ok(()) => backend_fault(*self) is None,
                Err(e) => backend_fault(*self) == Some(e@),
            },
    {
        let bridge: &str = self.bridge_backend.as_str();
        let state: &str = self.state_backend.as_str();
        let embedder: &str = self.embedder_backend.as_str();
        let vector: &str = self.vector_backend.as_str();
        if !text::same_text(bridge, "embedded") && !text::same_text(bridge, "kafka") && !text::same_text(
            bridge,
            "nats",
        ) {
            return Err(
                text::concat2("bridge_backend must be embedded|kafka|nats, got ", headers::quoted(bridge).as_str()),
            );
        }
        if self.bridge_manifest_path.as_str().is_empty() {
            return Err("bridge_manifest_path is required".to_owned());
        }
        if !text::same_text(bridge, "embedded") && is_blank(&self.bridge_endpoint) {
            return Err("bridge_endpoint is required for kafka and nats backends".to_owned());
        }
        if !text::same_text(state, "memory") && !text::same_text(state, "redis") {
            return Err(text::concat2("state_backend must be memory|redis, got ", headers::quoted(state).as_str()));
        }
        if text::same_text(state, "redis") && is_blank(&self.state_endpoint) {
            return Err("state_endpoint is required for the redis backend".to_owned());
        }
        if !text::same_text(embedder, "hash") && !text::same_text(embedder, "onnx") {
            return Err(
                text::concat2("embedder_backend must be hash|onnx, got ", headers::quoted(embedder).as_str()),
            );
        }
        if text::same_text(embedder, "onnx") && (is_blank(&self.onnx_model_path) || is_blank(
            &self.onnx_tokenizer_path,
        )) {
            return Err(
                "onnx_model_path and onnx_tokenizer_path are required for the onnx backend".to_owned(),
            );
        }
        if self.onnx_dimension == 0 {
            return Err("onnx_dimension must be greater than zero".to_owned());
        }
        if !text::same_text(vector, "memory") && !text::same_text(vector, "qdrant") {
            return Err(
                text::concat2("vector_backend must be memory|qdrant, got ", headers::quoted(vector).as_str()),
            );
        }
        if text::same_text(vector, "qdrant") && is_blank(&self.qdrant_url) {
            return Err("qdrant_url is required for the qdrant vector backend".to_owned());
        }
        if self.qdrant_collection.as_str().is_empty() {
            return Err("qdrant_collection must not be empty".to_owned());
        }
        Ok(())
    }

    /// Whether the configuration is sound.
    pub fn validate(&self) -> (checked: Result<(), String>)
        ensures
            match checked {
                Ok(()) => config_fault(*self) is None,
                Err(e) => config_fault(*self) == Some(e@),
            },
    {
        if self.config_version != CONFIG_VERSION {
            return Err(
                text::concat3(
                    "unsupported config_version ",
                    text::decimal(self.config_version as u64).as_str(),
                    " (this build supports 1)",
                ),
            );
        }
        if self.upstream_url.as_str().is_empty() {
            return Err("upstream_url is required".to_owned());
        }
        if !text::starts_with(self.upstream_chat_path.as_str(), "/") {
            return Err(
                text::concat2(
                    "upstream_chat_path must start with '/', got ",
                    headers::quoted(self.upstream_chat_path.as_str()).as_str(),
                ),
            );
        }
        match self.check_auth() {
            Ok(()) => {},
            Err(e) => {
                return Err(e);
            },
        }
        if Workflow::parse(self.default_workflow.as_str()).is_none() {
            return Err(
                text::concat2(
                    "default_workflow must be signed|unsigned, got ",
                    headers::quoted(self.default_workflow.as_str()).as_str(),
                ),
            );
        }
        if self.require_identity && is_blank(&self.identity_jwks_url) && is_blank(
            &self.identity_hmac_secret_file,
        ) {
            return Err("require_identity=true needs identity_jwks_url or identity_hmac_secret_file".to_owned());
        }
        if self.identity_jwks_refresh_s == 0 {
            return Err("identity_jwks_refresh_s must be greater than zero".to_owned());
        }
        if self.identity_hmac_kid.as_str().is_empty() {
            return Err("identity_hmac_kid must not be empty".to_owned());
        }
        if self.worker_channel_capacity == 0 {
            return Err("worker_channel_capacity must be > 0".to_owned());
        }
        self.check_backends()
    }


    /// A configuration of defaults. The URL of the provider is still to be
    /// supplied.
    pub fn builtin() -> (config: Result<HarnessConfig, String>)
        ensures
            config matches Ok(c) && is_builtin(c),
    {
        Ok(
            HarnessConfig {
                config_version: default_config_version(),
                listen: default_listen(),
                upstream_url: String::new(),
                tool_upstream_url: None,
                upstream_http2_prior_knowledge: false,
                upstream_read_timeout_s: None,
                upstream_chat_path: default_chat_path(),
                upstream_api_key_env: None,
                upstream_api_key_file: None,
                upstream_auth_header: default_auth_header(),
                upstream_auth_scheme: default_auth_scheme(),
                upstream_authorization_passthrough: false,
                tool_upstream_bearer_env: None,
                tool_upstream_bearer_file: None,
                require_identity: false,
                audience: default_audience(),
                identity_jwks_url: None,
                identity_jwks_refresh_s: default_jwks_refresh(),
                identity_allowed_issuers: Vec::new(),
                identity_hmac_secret_file: None,
                identity_hmac_kid: default_hmac_kid(),
                enforce_identity_scopes: default_true(),
                chat_scope: default_chat_scope(),
                session_close_scope: default_close_scope(),
                session_promote_scope: default_promote_scope(),
                default_workflow: default_workflow(),
                consequential_tools: default_consequential_tools(),
                tool_schema_dir: default_tool_schema_dir(),
                require_tool_schema: default_true(),
                wasm_policy_paths: default_wasm_policies(),
                session_idle_close_s: default_idle(),
                atif_spool_dir: default_spool(),
                bridge_data_dir: default_bridge(),
                bridge_backend: default_bridge_backend(),
                bridge_manifest_path: default_bridge_manifest(),
                bridge_endpoint: None,
                state_backend: default_state_backend(),
                state_endpoint: None,
                embedder_backend: default_embedder_backend(),
                onnx_model_path: None,
                onnx_tokenizer_path: None,
                onnx_dimension: default_onnx_dimension(),
                vector_backend: default_vector_backend(),
                qdrant_url: None,
                qdrant_collection: default_qdrant_collection(),
                worker_channel_capacity: default_channel_cap(),
                strict_stage_budget: false,
                compression_enabled: default_compression(),
                budget_max_tokens: None,
                reconcile_tick_s: default_reconcile_tick(),
                max_request_bytes: 4194304,
                dashboard_enabled: true,
            },
        )
    }
}

/// Whether every field of a configuration has its default value, and the URL
/// of the provider is empty.
pub open spec fn is_builtin(c: HarnessConfig) -> bool {
    &&& c.config_version == 1
    &&& c.listen@ == "127.0.0.1:8484"@
    &&& c.upstream_url@ == Seq::<char>::empty()
    &&& c.tool_upstream_url is None
    &&& !c.upstream_http2_prior_knowledge
    &&& c.upstream_read_timeout_s is None
    &&& c.upstream_chat_path@ == "/v1/chat/completions"@
    &&& c.upstream_api_key_env is None
    &&& c.upstream_api_key_file is None
    &&& c.upstream_auth_header@ == "authorization"@
    &&& c.upstream_auth_scheme@ == "Bearer"@
    &&& !c.upstream_authorization_passthrough
    &&& c.tool_upstream_bearer_env is None
    &&& c.tool_upstream_bearer_file is None
    &&& !c.require_identity
    &&& c.audience@ == "agent-bridge"@
    &&& c.identity_jwks_url is None
    &&& c.identity_jwks_refresh_s == 300
    &&& c.identity_allowed_issuers@.len() == 0
    &&& c.identity_hmac_secret_file is None
    &&& c.identity_hmac_kid@ == "dev-hmac"@
    &&& c.enforce_identity_scopes
    &&& c.chat_scope@ == "chat:write"@
    &&& c.session_close_scope@ == "session:close"@
    &&& c.session_promote_scope@ == "session:promote"@
    &&& c.default_workflow@ == "unsigned"@
    &&& text::texts(c.consequential_tools@) == seq!["db_write"@, "payout"@, "merge"@, "deploy"@]
    &&& text::opt_text(c.tool_schema_dir) == Some("config/tool-schemas"@)
    &&& c.require_tool_schema
    &&& text::texts(c.wasm_policy_paths@) == seq!["config/policies/payload_limit.wat"@]
    &&& c.session_idle_close_s == 900
    &&& c.atif_spool_dir@ == "spool/atif"@
    &&& c.bridge_data_dir@ == "data/bridge"@
    &&& c.bridge_backend@ == "embedded"@
    &&& c.bridge_manifest_path@ == "manifests/bridge.example.yaml"@
    &&& c.bridge_endpoint is None
    &&& c.state_backend@ == "memory"@
    &&& c.state_endpoint is None
    &&& c.embedder_backend@ == "hash"@
    &&& c.onnx_model_path is None
    &&& c.onnx_tokenizer_path is None
    &&& c.onnx_dimension == 384
    &&& c.vector_backend@ == "memory"@
    &&& c.qdrant_url is None
    &&& c.qdrant_collection@ == "agent_steps"@
    &&& c.worker_channel_capacity == 32768
    &&& !c.strict_stage_budget
    &&& c.compression_enabled
    &&& c.budget_max_tokens is None
    &&& c.reconcile_tick_s == 5
    &&& c.max_request_bytes == 4194304
    &&& c.dashboard_enabled
}

/// Whether a configuration is the one for tests: the defaults, but for a free
/// port, no schemas and no policies, no enforced scopes, a short queue, and a
/// fast reconciler.
pub open spec fn is_for_tests(c: HarnessConfig, upstream_url: Seq<char>, spool: Seq<char>, bridge: Seq<char>) -> bool {
    &&& c.config_version == 1
    &&& c.listen@ == "127.0.0.1:0"@
    &&& c.upstream_url@ == upstream_url
    &&& c.tool_upstream_url is None
    &&& !c.upstream_http2_prior_knowledge
    &&& c.upstream_read_timeout_s is None
    &&& c.upstream_chat_path@ == "/v1/chat/completions"@
    &&& c.upstream_api_key_env is None
    &&& c.upstream_api_key_file is None
    &&& c.upstream_auth_header@ == "authorization"@
    &&& c.upstream_auth_scheme@ == "Bearer"@
    &&& !c.upstream_authorization_passthrough
    &&& c.tool_upstream_bearer_env is None
    &&& c.tool_upstream_bearer_file is None
    &&& !c.require_identity
    &&& c.audience@ == "agent-bridge"@
    &&& c.identity_jwks_url is None
    &&& c.identity_jwks_refresh_s == 300
    &&& c.identity_allowed_issuers@.len() == 0
    &&& c.identity_hmac_secret_file is None
    &&& c.identity_hmac_kid@ == "dev-hmac"@
    &&& !c.enforce_identity_scopes
    &&& c.chat_scope@ == "chat:write"@
    &&& c.session_close_scope@ == "session:close"@
    &&& c.session_promote_scope@ == "session:promote"@
    &&& c.default_workflow@ == "unsigned"@
    &&& text::texts(c.consequential_tools@) == seq!["db_write"@, "payout"@, "merge"@, "deploy"@]
    &&& c.tool_schema_dir is None
    &&& !c.require_tool_schema
    &&& c.wasm_policy_paths@.len() == 0
    &&& c.session_idle_close_s == 900
    &&& c.atif_spool_dir@ == spool
    &&& c.bridge_data_dir@ == bridge
    &&& c.bridge_backend@ == "embedded"@
    &&& c.bridge_manifest_path@ == "manifests/bridge.example.yaml"@
    &&& c.bridge_endpoint is None
    &&& c.state_backend@ == "memory"@
    &&& c.state_endpoint is None
    &&& c.embedder_backend@ == "hash"@
    &&& c.onnx_model_path is None
    &&& c.onnx_tokenizer_path is None
    &&& c.onnx_dimension == 384
    &&& c.vector_backend@ == "memory"@
    &&& c.qdrant_url is None
    &&& c.qdrant_collection@ == "agent_steps"@
    &&& c.worker_channel_capacity == 1024
    &&& !c.strict_stage_budget
    &&& c.compression_enabled
    &&& c.budget_max_tokens is None
    &&& c.reconcile_tick_s == 1
    &&& c.max_request_bytes == 4194304
    &&& c.dashboard_enabled
}

impl HarnessConfig {
    /// A configuration for tests; the caller supplies the directories.
    pub fn for_tests(upstream_url: &str, spool: &str, bridge: &str) -> (config: HarnessConfig)
        ensures
            is_for_tests(config, upstream_url@, spool@, bridge@),
    {
        HarnessConfig {
            config_version: default_config_version(),
            listen: "127.0.0.1:0".to_owned(),
            upstream_url: upstream_url.to_owned(),
            tool_upstream_url: None,
            upstream_http2_prior_knowledge: false,
            upstream_read_timeout_s: None,
            upstream_chat_path: default_chat_path(),
            upstream_api_key_env: None,
            upstream_api_key_file: None,
            upstream_auth_header: default_auth_header(),
            upstream_auth_scheme: default_auth_scheme(),
            upstream_authorization_passthrough: false,
            tool_upstream_bearer_env: None,
            tool_upstream_bearer_file: None,
            require_identity: false,
            audience: default_audience(),
            identity_jwks_url: None,
            identity_jwks_refresh_s: default_jwks_refresh(),
            identity_allowed_issuers: Vec::new(),
            identity_hmac_secret_file: None,
            identity_hmac_kid: default_hmac_kid(),
            enforce_identity_scopes: false,
            chat_scope: default_chat_scope(),
            session_close_scope: default_close_scope(),
            session_promote_scope: default_promote_scope(),
            default_workflow: default_workflow(),
            consequential_tools: default_consequential_tools(),
            tool_schema_dir: None,
            require_tool_schema: false,
            wasm_policy_paths: Vec::new(),
            session_idle_close_s: 900,
            atif_spool_dir: spool.to_owned(),
            bridge_data_dir: bridge.to_owned(),
            bridge_backend: default_bridge_backend(),
            bridge_manifest_path: default_bridge_manifest(),
            bridge_endpoint: None,
            state_backend: default_state_backend(),
            state_endpoint: None,
            embedder_backend: default_embedder_backend(),
            onnx_model_path: None,
            onnx_tokenizer_path: None,
            onnx_dimension: default_onnx_dimension(),
            vector_backend: default_vector_backend(),
            qdrant_url: None,
            qdrant_collection: default_qdrant_collection(),
            worker_channel_capacity: 1024,
            strict_stage_budget: false,
            compression_enabled: true,
            budget_max_tokens: None,
            reconcile_tick_s: 1,
            max_request_bytes: 4194304,
            dashboard_enabled: true,
        }
    }

    /// Whether the bridge manifest is the default one. Only then may a built-in
    /// copy stand in for a missing file.
    pub fn uses_default_manifest_path(&self) -> (default: bool)
        ensures
            default == (self.bridge_manifest_path@ == "manifests/bridge.example.yaml"@),
    {
        text::same_text(self.bridge_manifest_path.as_str(), default_bridge_manifest().as_str())
    }

    /// Whether the directory of the tool schemas is the default one.
    pub fn uses_default_tool_schema_dir(&self) -> (default: bool)
        ensures
            default == (text::opt_text(self.tool_schema_dir) == Some("config/tool-schemas"@)),
    {
        match default_tool_schema_dir() {
            Some(dir) => text::holds_text(&self.tool_schema_dir, dir.as_str()),
            None => self.tool_schema_dir.is_none(),
        }
    }

    /// Whether a path is that of the default policy module.
    pub fn is_default_policy_path(path: &str) -> (default: bool)
        ensures
            default == (path@ == "config/policies/payload_limit.wat"@),
    {
        let policies: Vec<String> = default_wasm_policies();
        let found = text::list_holds(&policies, path);
        proof {
            let one = seq!["config/policies/payload_limit.wat"@];
            assert(one.contains(path@) == (path@ == one[0])) by {
                if one.contains(path@) {
                    let i = choose|i: int| 0 <= i < one.len() && one[i] == path@;
                    assert(i == 0);
                }
                assert(one[0] == "config/policies/payload_limit.wat"@);
            }
        }
        found
    }
}

/// A configuration is sound exactly where each of its parts is: its version
/// is the known one, the provider is named and its path begins with a slash,
/// one source of a key is given at most and its header is one, identities
/// that are required can be validated, and every backend is a known one that
/// has what it needs.
pub proof fn law_sound_configs(c: HarnessConfig)
    ensures
        config_fault(c) is None <==> {
            &&& c.config_version == 1
            &&& c.upstream_url@.len() > 0
            &&& text::has_prefix(c.upstream_chat_path@, "/"@)
            &&& !(c.upstream_api_key_env matches Some(name) && name@.len() == 0)
            &&& !(c.upstream_api_key_file matches Some(path) && path@.len() == 0)
            &&& !(c.upstream_api_key_env is Some && c.upstream_api_key_file is Some)
            &&& c.upstream_authorization_passthrough ==> c.upstream_api_key_env is None && c.upstream_api_key_file is None
                && !c.require_identity
            &&& headers::is_header_name(c.upstream_auth_header@)
            &&& forall|i: int|
                0 <= i < c.upstream_auth_scheme@.len() ==> 33 <= (#[trigger] c.upstream_auth_scheme@[i]) as u32 <= 126
            &&& !(c.tool_upstream_bearer_env is Some && c.tool_upstream_bearer_file is Some)
            &&& c.tool_upstream_bearer_env is Some || c.tool_upstream_bearer_file is Some ==> (c.tool_upstream_url
                matches Some(url) && url@.len() > 0)
            &&& c.default_workflow@ == "signed"@ || c.default_workflow@ == "unsigned"@
            &&& c.require_identity ==> (c.identity_jwks_url matches Some(url) && url@.len() > 0) || (
            c.identity_hmac_secret_file matches Some(path) && path@.len() > 0)
            &&& c.identity_jwks_refresh_s > 0
            &&& c.identity_hmac_kid@.len() > 0
            &&& c.worker_channel_capacity > 0
            &&& c.bridge_backend@ == "embedded"@ || (c.bridge_backend@ == "kafka"@ || c.bridge_backend@ == "nats"@) && (
            c.bridge_endpoint matches Some(endpoint) && endpoint@.len() > 0)
            &&& c.bridge_manifest_path@.len() > 0
            &&& c.state_backend@ == "memory"@ || c.state_backend@ == "redis"@ && (c.state_endpoint matches Some(endpoint)
                && endpoint@.len() > 0)
            &&& c.embedder_backend@ == "hash"@ || c.embedder_backend@ == "onnx"@ && (c.onnx_model_path matches Some(model)
                && model@.len() > 0) && (c.onnx_tokenizer_path matches Some(tokenizer) && tokenizer@.len() > 0)
            &&& c.onnx_dimension > 0
            &&& c.vector_backend@ == "memory"@ || c.vector_backend@ == "qdrant"@ && (c.qdrant_url matches Some(url)
                && url@.len() > 0)
            &&& c.qdrant_collection@.len() > 0
        },
{
    reveal_strlit("embedded");
    reveal_strlit("kafka");
    reveal_strlit("nats");
    reveal_strlit("memory");
    reveal_strlit("redis");
    reveal_strlit("hash");
    reveal_strlit("onnx");
    reveal_strlit("qdrant");
    assert("embedded"@[0] == 'e' && "kafka"@[0] == 'k' && "nats"@[0] == 'n');
    assert("memory"@[0] == 'm' && "redis"@[0] == 'r' && "hash"@[0] == 'h' && "onnx"@[0] == 'o' && "qdrant"@[0] == 'q');
    assert(is_visible(c.upstream_auth_scheme@) <==> forall|i: int|
        0 <= i < c.upstream_auth_scheme@.len() ==> 33 <= (#[trigger] c.upstream_auth_scheme@[i]) as u32 <= 126);
}

/// The built-in configuration listens to this machine only, keeps consequential
/// tools to signed sessions, asks for scopes and for schemas, and passes no
/// credential of a client on.
pub proof fn law_builtin_config_is_guarded(c: HarnessConfig)
    requires
        is_builtin(c),
    ensures
        text::has_prefix(c.listen@, "127.0.0.1:"@),
        c.enforce_identity_scopes && c.require_tool_schema,
        !c.upstream_authorization_passthrough && !has_static_key(c),
        c.upstream_url@.len() == 0,
        c.tool_upstream_url is None,
        text::texts(c.consequential_tools@).contains("db_write"@),
        text::texts(c.consequential_tools@).contains("payout"@),
        text::texts(c.consequential_tools@).contains("merge"@),
        text::texts(c.consequential_tools@).contains("deploy"@),
        c.default_workflow@ == "unsigned"@,
        c.session_idle_close_s == 15 * 60,
        c.budget_max_tokens is None,
        c.max_request_bytes == 4 * 1024 * 1024,
{
    reveal_strlit("127.0.0.1:8484");
    reveal_strlit("127.0.0.1:");
    assert(c.listen@.take(10) =~= "127.0.0.1:"@);
    let tools = text::texts(c.consequential_tools@);
    assert(tools[0] == "db_write"@ && tools[1] == "payout"@ && tools[2] == "merge"@ && tools[3] == "deploy"@);
}

/// What tests run with is the built-in configuration, but for a free port, the
/// places and the provider that a test gives, no schemas and no policies, no
/// enforced scopes, a short queue, and a fast reconciler.
pub proof fn law_tests_run_with_the_defaults(
    tests: HarnessConfig,
    defaults: HarnessConfig,
    upstream_url: Seq<char>,
    spool: Seq<char>,
    bridge: Seq<char>,
)
    requires
        is_for_tests(tests, upstream_url, spool, bridge),
        is_builtin(defaults),
    ensures
        tests.upstream_url@ == upstream_url,
        tests.atif_spool_dir@ == spool,
        tests.bridge_data_dir@ == bridge,
        tests.listen@ == "127.0.0.1:0"@,
        tests.tool_schema_dir is None && !tests.require_tool_schema && tests.wasm_policy_paths@.len() == 0,
        !tests.enforce_identity_scopes,
        tests.worker_channel_capacity < defaults.worker_channel_capacity,
        tests.reconcile_tick_s < defaults.reconcile_tick_s,
        tests.config_version == defaults.config_version,
        text::opt_text(tests.tool_upstream_url) == text::opt_text(defaults.tool_upstream_url),
        tests.upstream_http2_prior_knowledge == defaults.upstream_http2_prior_knowledge,
        tests.upstream_read_timeout_s == defaults.upstream_read_timeout_s,
        tests.upstream_chat_path@ == defaults.upstream_chat_path@,
        text::opt_text(tests.upstream_api_key_env) == text::opt_text(defaults.upstream_api_key_env),
        text::opt_text(tests.upstream_api_key_file) == text::opt_text(defaults.upstream_api_key_file),
        tests.upstream_auth_header@ == defaults.upstream_auth_header@,
        tests.upstream_auth_scheme@ == defaults.upstream_auth_scheme@,
        tests.upstream_authorization_passthrough == defaults.upstream_authorization_passthrough,
        text::opt_text(tests.tool_upstream_bearer_env) == text::opt_text(defaults.tool_upstream_bearer_env),
        text::opt_text(tests.tool_upstream_bearer_file) == text::opt_text(defaults.tool_upstream_bearer_file),
        tests.require_identity == defaults.require_identity,
        tests.audience@ == defaults.audience@,
        text::opt_text(tests.identity_jwks_url) == text::opt_text(defaults.identity_jwks_url),
        tests.identity_jwks_refresh_s == defaults.identity_jwks_refresh_s,
        text::texts(tests.identity_allowed_issuers@) == text::texts(defaults.identity_allowed_issuers@),
        text::opt_text(tests.identity_hmac_secret_file) == text::opt_text(defaults.identity_hmac_secret_file),
        tests.identity_hmac_kid@ == defaults.identity_hmac_kid@,
        tests.chat_scope@ == defaults.chat_scope@,
        tests.session_close_scope@ == defaults.session_close_scope@,
        tests.session_promote_scope@ == defaults.session_promote_scope@,
        tests.default_workflow@ == defaults.default_workflow@,
        text::texts(tests.consequential_tools@) == text::texts(defaults.consequential_tools@),
        tests.session_idle_close_s == defaults.session_idle_close_s,
        tests.bridge_backend@ == defaults.bridge_backend@,
        tests.bridge_manifest_path@ == defaults.bridge_manifest_path@,
        text::opt_text(tests.bridge_endpoint) == text::opt_text(defaults.bridge_endpoint),
        tests.state_backend@ == defaults.state_backend@,
        text::opt_text(tests.state_endpoint) == text::opt_text(defaults.state_endpoint),
        tests.embedder_backend@ == defaults.embedder_backend@,
        text::opt_text(tests.onnx_model_path) == text::opt_text(defaults.onnx_model_path),
        text::opt_text(tests.onnx_tokenizer_path) == text::opt_text(defaults.onnx_tokenizer_path),
        tests.onnx_dimension == defaults.onnx_dimension,
        tests.vector_backend@ == defaults.vector_backend@,
        text::opt_text(tests.qdrant_url) == text::opt_text(defaults.qdrant_url),
        tests.qdrant_collection@ == defaults.qdrant_collection@,
        tests.strict_stage_budget == defaults.strict_stage_budget,
        tests.compression_enabled == defaults.compression_enabled,
        tests.budget_max_tokens == defaults.budget_max_tokens,
        tests.max_request_bytes == defaults.max_request_bytes,
        tests.dashboard_enabled == defaults.dashboard_enabled,
{
    assert(tests.identity_allowed_issuers@ =~= Seq::<String>::empty());
    assert(defaults.identity_allowed_issuers@ =~= Seq::<String>::empty());
}

/// The built-in configuration asks a provider in the usual way, and asks of an
/// agent the scope of what it does.
pub proof fn law_builtin_names(c: HarnessConfig)
    requires
        is_builtin(c),
    ensures
        c.upstream_chat_path@ == "/v1/chat/completions"@,
        c.upstream_auth_header@ == "authorization"@,
        c.upstream_auth_scheme@ == "Bearer"@,
        c.audience@ == "agent-bridge"@,
        c.chat_scope@ == "chat:write"@,
        c.session_close_scope@ == "session:close"@,
        c.session_promote_scope@ == "session:promote"@,
        c.identity_hmac_kid@ == "dev-hmac"@,
        c.listen@ == "127.0.0.1:8484"@,
        c.atif_spool_dir@ == "spool/atif"@,
        c.bridge_data_dir@ == "data/bridge"@,
        c.bridge_manifest_path@ == "manifests/bridge.example.yaml"@,
        c.qdrant_collection@ == "agent_steps"@,
        text::opt_text(c.tool_schema_dir) == Some("config/tool-schemas"@),
        text::texts(c.wasm_policy_paths@) == seq!["config/policies/payload_limit.wat"@],
        c.bridge_backend@ == "embedded"@ && c.state_backend@ == "memory"@ && c.embedder_backend@ == "hash"@
            && c.vector_backend@ == "memory"@,
        c.worker_channel_capacity == 32 * 1024,
        c.identity_jwks_refresh_s == 5 * 60,
        c.onnx_dimension == 384,
        c.reconcile_tick_s == 5,
        !c.strict_stage_budget && c.compression_enabled && c.dashboard_enabled,
{
}

/// A configuration that is not sound is refused for what is wrong with it,
/// where nothing else is.
pub proof fn law_unsound_configs_are_told_why(c: HarnessConfig)
    ensures
        c.config_version != 1 ==> config_fault(c) == Some(
            "unsupported config_version "@ + text::decimal_digits(c.config_version as nat) + " (this build supports 1)"@,
        ),
        c.config_version == 1 && c.upstream_url@.len() == 0 ==> config_fault(c) == Some("upstream_url is required"@),
        c.config_version == 1 && c.upstream_url@.len() > 0 && !text::has_prefix(c.upstream_chat_path@, "/"@)
            ==> config_fault(c) == Some(
            "upstream_chat_path must start with '/', got "@ + headers::debug_text(c.upstream_chat_path@),
        ),
        (c.upstream_api_key_env matches Some(name) && name@.len() == 0) ==> auth_fault(c) == Some(
            "upstream_api_key_env must not be empty when set"@,
        ),
        c.upstream_api_key_env is None && (c.upstream_api_key_file matches Some(path) && path@.len() == 0) ==> auth_fault(
            c,
        ) == Some("upstream_api_key_file must not be empty when set"@),
        (c.upstream_api_key_env matches Some(name) && name@.len() > 0) && (c.upstream_api_key_file matches Some(path)
            && path@.len() > 0) ==> auth_fault(c) == Some(
            "set only one of upstream_api_key_env or upstream_api_key_file (ambiguous key source)"@,
        ),
        c.upstream_api_key_env is None && c.upstream_api_key_file is None && c.upstream_authorization_passthrough
            && c.require_identity ==> auth_fault(c) == Some(
            "upstream_authorization_passthrough cannot be combined with require_identity: the Authorization header carries the NHI token, which must never be sent upstream"@,
        ),
        (c.upstream_api_key_env matches Some(name) && name@.len() > 0) && c.upstream_api_key_file is None
            && c.upstream_authorization_passthrough ==> auth_fault(c) == Some(
            "upstream_authorization_passthrough conflicts with upstream_api_key_env/file: choose one auth mode"@,
        ),
        auth_fault(c) is None && c.config_version == 1 && c.upstream_url@.len() > 0 && text::has_prefix(
            c.upstream_chat_path@,
            "/"@,
        ) && crate::session::workflow_named(c.default_workflow@) is None ==> config_fault(c) == Some(
            "default_workflow must be signed|unsigned, got "@ + headers::debug_text(c.default_workflow@),
        ),
        c.bridge_backend@ != "embedded"@ && c.bridge_backend@ != "kafka"@ && c.bridge_backend@ != "nats"@ ==> backend_fault(
            c,
        ) == Some("bridge_backend must be embedded|kafka|nats, got "@ + headers::debug_text(c.bridge_backend@)),
        c.bridge_backend@ == "embedded"@ && c.bridge_manifest_path@.len() == 0 ==> backend_fault(c) == Some(
            "bridge_manifest_path is required"@,
        ),
{
}

/// A backend that lacks what it needs, or is not known, is told by its
/// setting, where the settings before it are sound.
pub proof fn law_unsound_backends_are_told_why(c: HarnessConfig)
    requires
        c.bridge_backend@ == "embedded"@,
        c.bridge_manifest_path@.len() > 0,
    ensures
        c.state_backend@ != "memory"@ && c.state_backend@ != "redis"@ ==> backend_fault(c) == Some(
            "state_backend must be memory|redis, got "@ + headers::debug_text(c.state_backend@),
        ),
        c.state_backend@ == "redis"@ && blank(c.state_endpoint) ==> backend_fault(c) == Some(
            "state_endpoint is required for the redis backend"@,
        ),
        c.state_backend@ == "memory"@ ==> {
            &&& c.embedder_backend@ != "hash"@ && c.embedder_backend@ != "onnx"@ ==> backend_fault(c) == Some(
                "embedder_backend must be hash|onnx, got "@ + headers::debug_text(c.embedder_backend@),
            )
            &&& c.embedder_backend@ == "onnx"@ && (blank(c.onnx_model_path) || blank(c.onnx_tokenizer_path))
                ==> backend_fault(c) == Some(
                "onnx_model_path and onnx_tokenizer_path are required for the onnx backend"@,
            )
            &&& c.embedder_backend@ == "hash"@ && c.onnx_dimension == 0 ==> backend_fault(c) == Some(
                "onnx_dimension must be greater than zero"@,
            )
            &&& c.embedder_backend@ == "hash"@ && c.onnx_dimension > 0 && c.vector_backend@ != "memory"@
                && c.vector_backend@ != "qdrant"@ ==> backend_fault(c) == Some(
                "vector_backend must be memory|qdrant, got "@ + headers::debug_text(c.vector_backend@),
            )
            &&& c.embedder_backend@ == "hash"@ && c.onnx_dimension > 0 && c.vector_backend@ == "qdrant"@ && blank(
                c.qdrant_url,
            ) ==> backend_fault(c) == Some("qdrant_url is required for the qdrant vector backend"@)
            &&& c.embedder_backend@ == "hash"@ && c.onnx_dimension > 0 && c.vector_backend@ == "memory"@
                && c.qdrant_collection@.len() == 0 ==> backend_fault(c) == Some("qdrant_collection must not be empty"@)
        },
{
    reveal_strlit("memory");
    reveal_strlit("redis");
    reveal_strlit("hash");
    reveal_strlit("onnx");
    reveal_strlit("qdrant");
    assert("memory"@.len() != "redis"@.len());
    assert("hash"@[0] != "onnx"@[0]);
    assert("memory"@[0] != "qdrant"@[0]);
}

} // verus!
