//! What a process is started with: policies, schemas, keys and backends.
//!
//! A default file that is absent gives way to what is built in; a file that
//! the operator named must be there.

use vstd::prelude::*;
use crate::config::HarnessConfig;
use crate::headers;
use crate::journal;
use crate::json;
use crate::json::Json;
use crate::text;

verus! {

/// A file or directory that was to be read.
#[derive(Debug)]
pub enum Source {
    Read,
    NotFound,
    Failed,
}

/// Whether what is built in stands in for a file or directory: only for a
/// default one, and only where it is absent.
pub fn falls_back(source: &Source, is_default: bool) -> (falls: bool)
    ensures
        falls == (source is NotFound && is_default),
{
    match source {
        Source::NotFound => is_default,
        _ => false,
    }
}

/// The tool that a file of the schema directory is about, where it is one
/// about a tool.
pub open spec fn schema_of(name: Seq<char>) -> Option<Seq<char>> {
    if journal::has_extension(name, ".json"@) {
        text::without_suffix(name, ".json"@)
    } else {
        None
    }
}

/// The tool that a file of the schema directory is about.
pub fn schema_tool(name: &str) -> (tool: Option<String>)
    ensures
        text::opt_text(tool) == schema_of(name@),
{
    if journal::is_json_file(name) {
        text::strip_suffix(name, ".json")
    } else {
        None
    }
}

/// The words for a schema file that is no JSON.
pub open spec fn bad_schema(path: Seq<char>) -> Seq<char> {
    "parse tool schema "@ + path
}

/// The schema in a file that was parsed, or that there is none in it.
pub fn checked_schema(parsed: Result<Json, String>, path: &str) -> (schema: Result<Json, String>)
    ensures
        match (json::parsed_view(parsed), schema) {
            (Ok(tree), Ok(document)) => document@ == tree,
            (Err(_), Err(words)) => words@ == bad_schema(path@),
            _ => false,
        },
{
    match parsed {
        Ok(document) => Ok(document),
        Err(_) => Err(text::concat2("parse tool schema ", path)),
    }
}

/// Reads the schema of a tool from the bytes of its file.
pub fn read_schema(bytes: &[u8], path: &str) -> (schema: Result<Json, String>)
    ensures
        match (json::json_document_of_bytes(bytes@), schema) {
            (Ok(tree), Ok(document)) => document@ == tree,
            (Err(_), Err(words)) => words@ == bad_schema(path@),
            _ => false,
        },
{
    checked_schema(json::parse_json_bytes(bytes), path)
}

/// What `{:?}` makes of an optional text.
pub open spec fn debug_opt(s: Option<Seq<char>>) -> Seq<char> {
    match s {
        Some(t) => "Some("@ + headers::debug_text(t) + ")"@,
        None => "None"@,
    }
}

/// Whether tool calls that need a schema have none at all.
pub open spec fn lacks_schemas(config: HarnessConfig, loaded: nat) -> bool {
    config.require_tool_schema && loaded == 0
}

/// Whether the schemas that were loaded are enough to start with. Without
/// any, every tool call is rejected, which is refused where tool calls are
/// to be forwarded. Otherwise tells whether to warn.
pub fn check_schemas(config: &HarnessConfig, loaded: usize) -> (warn: Result<bool, String>)
    ensures
        match warn {
            Ok(w) => w == lacks_schemas(*config, loaded as nat) && !(w && config.tool_upstream_url is Some),
            Err(e) => lacks_schemas(*config, loaded as nat) && config.tool_upstream_url is Some && e@
                == "require_tool_schema=true and tool_upstream_url is set, but no tool schemas were loaded from "@
                + debug_opt(text::opt_text(config.tool_schema_dir)),
        },
{
    if !config.require_tool_schema || loaded > 0 {
        return Ok(false);
    }
    if config.tool_upstream_url.is_none() {
        return Ok(true);
    }
    let shown: String = match &config.tool_schema_dir {
        Some(dir) => text::concat3("Some(", headers::quoted(dir.as_str()).as_str(), ")"),
        None => "None".to_owned(),
    };
    Err(
        text::concat2(
            "require_tool_schema=true and tool_upstream_url is set, but no tool schemas were loaded from ",
            shown.as_str(),
        ),
    )
}

/// Whether an optional text says something.
pub open spec fn is_given(s: Option<Seq<char>>) -> bool {
    match s {
        Some(t) => t.len() > 0,
        None => false,
    }
}

/// Whether an optional text says something.
fn given(s: &Option<String>) -> (g: bool)
    ensures
        g == is_given(text::opt_text(*s)),
{
    match s {
        Some(t) => !t.as_str().is_empty(),
        None => false,
    }
}

/// Whether identities are validated at all: a key source is configured.
pub fn validates_identities(config: &HarnessConfig) -> (validates: bool)
    ensures
        validates == (is_given(text::opt_text(config.identity_jwks_url)) || is_given(
            text::opt_text(config.identity_hmac_secret_file),
        )),
{
    given(&config.identity_jwks_url) || given(&config.identity_hmac_secret_file)
}

/// Whether a shared secret can be used: it must not be empty.
pub fn check_hmac_secret(path: &str, len: usize) -> (checked: Result<(), String>)
    ensures
        match checked {
            Ok(()) => len > 0,
            Err(e) => len == 0 && e@ == "identity HMAC secret file "@ + path@ + " is empty"@,
        },
{
    if len == 0 {
        Err(text::concat3("identity HMAC secret file ", path, " is empty"))
    } else {
        Ok(())
    }
}

/// Whether identities can be validated: there must be a key.
pub fn check_key_count(keys: usize) -> (checked: Result<(), String>)
    ensures
        match checked {
            Ok(()) => keys > 0,
            Err(e) => keys == 0 && e@ == "identity enforcement configured without any verification keys"@,
        },
{
    if keys == 0 {
        Err("identity enforcement configured without any verification keys".to_owned())
    } else {
        Ok(())
    }
}

/// A backend that is chosen: the one that is always there, or one that is
/// reached at an endpoint.
#[derive(Debug)]
pub enum Backend {
    BuiltIn,
    /// The one of this name.
    Remote { name: String, endpoint: String },
}

/// A [`Backend`] by its texts.
#[verifier::ext_equal]
pub enum BackendView {
    BuiltIn,
    Remote { name: Seq<char>, endpoint: Seq<char> },
}

impl View for Backend {
    type V = BackendView;

    open spec fn view(&self) -> BackendView {
        match self {
            Backend::BuiltIn => BackendView::BuiltIn,
            Backend::Remote { name, endpoint } => BackendView::Remote { name: name@, endpoint: endpoint@ },
        }
    }
}

/// A backend that is asked for by name and needs something else: it is used
/// only where this build has it, and that something is configured.
pub open spec fn remote(
    name: Seq<char>,
    available: bool,
    endpoint: Option<Seq<char>>,
    needed: Seq<char>,
) -> Result<BackendView, Seq<char>> {
    if !available {
        Err(name + " backend requested but agent-bridge was built without feature "@ + name)
    } else {
        match endpoint {
            Some(endpoint) => Ok(BackendView::Remote { name, endpoint }),
            None => Err(needed + " is required for "@ + name),
        }
    }
}

/// The words for a backend that is not known.
pub open spec fn unsupported(kind: Seq<char>, name: Seq<char>) -> Seq<char> {
    "unsupported "@ + kind + " backend "@ + headers::debug_text(name)
}

/// A backend that is asked for by name.
fn choose_remote(name: &str, available: bool, endpoint: &Option<String>, needed: &str) -> (chosen: Result<Backend, String>)
    ensures
        match chosen {
            Ok(b) => remote(name@, available, text::opt_text(*endpoint), needed@) == Ok::<BackendView, Seq<char>>(b@),
            Err(e) => remote(name@, available, text::opt_text(*endpoint), needed@) == Err::<BackendView, Seq<char>>(
                e@,
            ),
        },
{
    if !available {
        return Err(
            text::concat3(name, " backend requested but agent-bridge was built without feature ", name),
        );
    }
    match endpoint {
        Some(endpoint) => Ok(Backend::Remote { name: name.to_owned(), endpoint: endpoint.clone() }),
        None => Err(text::concat3(needed, " is required for ", name)),
    }
}

/// The words for a backend that is not known.
fn refuse_backend(kind: &str, name: &str) -> (words: String)
    ensures
        words@ == unsupported(kind@, name@),
{
    let head: String = text::concat3("unsupported ", kind, " backend ");
    text::concat2(head.as_str(), headers::quoted(name).as_str())
}

/// The event bridge that is asked for.
pub open spec fn bridge_choice(name: Seq<char>, endpoint: Option<Seq<char>>, kafka: bool, nats: bool) -> Result<
    BackendView,
    Seq<char>,
> {
    if name == "embedded"@ {
        Ok(BackendView::BuiltIn)
    } else if name == "kafka"@ {
        remote(name, kafka, endpoint, "bridge_endpoint"@)
    } else if name == "nats"@ {
        remote(name, nats, endpoint, "bridge_endpoint"@)
    } else {
        Err(unsupported("bridge"@, name))
    }
}

/// Chooses the event bridge. `kafka` and `nats` tell what this build has.
pub fn choose_bridge(config: &HarnessConfig, kafka: bool, nats: bool) -> (chosen: Result<Backend, String>)
    ensures
        match chosen {
            Ok(b) => bridge_choice(config.bridge_backend@, text::opt_text(config.bridge_endpoint), kafka, nats) == Ok::<
                BackendView,
                Seq<char>,
            >(b@),
            Err(e) => bridge_choice(config.bridge_backend@, text::opt_text(config.bridge_endpoint), kafka, nats)
                == Err::<BackendView, Seq<char>>(e@),
        },
{
    let name: &str = config.bridge_backend.as_str();
    if text::same_text(name, "embedded") {
        Ok(Backend::BuiltIn)
    } else if text::same_text(name, "kafka") {
        choose_remote(name, kafka, &config.bridge_endpoint, "bridge_endpoint")
    } else if text::same_text(name, "nats") {
        choose_remote(name, nats, &config.bridge_endpoint, "bridge_endpoint")
    } else {
        Err(refuse_backend("bridge", name))
    }
}

/// A backend of which there is one built in and one other.
pub open spec fn simple_choice(
    kind: Seq<char>,
    name: Seq<char>,
    built_in: Seq<char>,
    other: Seq<char>,
    available: bool,
    endpoint: Option<Seq<char>>,
    needed: Seq<char>,
) -> Result<BackendView, Seq<char>> {
    if name == built_in {
        Ok(BackendView::BuiltIn)
    } else if name == other {
        remote(name, available, endpoint, needed)
    } else {
        Err(unsupported(kind, name))
    }
}

/// Chooses a backend of which there is one built in and one other.
fn choose_simple(
    kind: &str,
    name: &str,
    built_in: &str,
    other: &str,
    available: bool,
    endpoint: &Option<String>,
    needed: &str,
) -> (chosen: Result<Backend, String>)
    ensures
        match chosen {
            Ok(b) => simple_choice(
                kind@,
                name@,
                built_in@,
                other@,
                available,
                text::opt_text(*endpoint),
                needed@,
            ) == Ok::<BackendView, Seq<char>>(b@),
            Err(e) => simple_choice(
                kind@,
                name@,
                built_in@,
                other@,
                available,
                text::opt_text(*endpoint),
                needed@,
            ) == Err::<BackendView, Seq<char>>(e@),
        },
{
    if text::same_text(name, built_in) {
        Ok(Backend::BuiltIn)
    } else if text::same_text(name, other) {
        choose_remote(name, available, endpoint, needed)
    } else {
        Err(refuse_backend(kind, name))
    }
}

/// A choice by its contents.
pub open spec fn chosen_view(chosen: Result<Backend, String>) -> Result<BackendView, Seq<char>> {
    match chosen {
        Ok(b) => Ok(b@),
        Err(e) => Err(e@),
    }
}

/// Chooses the quota state. `redis` tells whether this build has it.
pub fn choose_store(config: &HarnessConfig, redis: bool) -> (chosen: Result<Backend, String>)
    ensures
        chosen_view(chosen) == simple_choice(
            "state"@,
            config.state_backend@,
            "memory"@,
            "redis"@,
            redis,
            text::opt_text(config.state_endpoint),
            "state_endpoint"@,
        ),
{
    choose_simple(
        "state",
        config.state_backend.as_str(),
        "memory",
        "redis",
        redis,
        &config.state_endpoint,
        "state_endpoint",
    )
}

/// Chooses the embedder. `onnx` tells whether this build has it; the model
/// comes first, and the tokenizer is asked for once the model is there.
pub fn choose_embedder(config: &HarnessConfig, onnx: bool) -> (chosen: Result<Backend, String>)
    ensures
        chosen_view(chosen) == ({
            let by_model = simple_choice(
                "embedder"@,
                config.embedder_backend@,
                "hash"@,
                "onnx"@,
                onnx,
                text::opt_text(config.onnx_model_path),
                "onnx_model_path"@,
            );
            if by_model matches Ok(BackendView::Remote { .. }) && config.onnx_tokenizer_path is None {
                Err("onnx_tokenizer_path is required for onnx"@)
            } else {
                by_model
            }
        }),
{
    let by_model: Result<Backend, String> = choose_simple(
        "embedder",
        config.embedder_backend.as_str(),
        "hash",
        "onnx",
        onnx,
        &config.onnx_model_path,
        "onnx_model_path",
    );
    match &by_model {
        Ok(Backend::Remote { .. }) => {
            if config.onnx_tokenizer_path.is_none() {
                return Err("onnx_tokenizer_path is required for onnx".to_owned());
            }
        },
        _ => {},
    }
    by_model
}

/// Chooses the vector store. `qdrant` tells whether this build has it.
pub fn choose_vector_sink(config: &HarnessConfig, qdrant: bool) -> (chosen: Result<Backend, String>)
    ensures
        chosen_view(chosen) == simple_choice(
            "vector"@,
            config.vector_backend@,
            "memory"@,
            "qdrant"@,
            qdrant,
            text::opt_text(config.qdrant_url),
            "qdrant_url"@,
        ),
{
    choose_simple(
        "vector",
        config.vector_backend.as_str(),
        "memory",
        "qdrant",
        qdrant,
        &config.qdrant_url,
        "qdrant_url",
    )
}

/// What comes next in getting the signing key.
#[derive(Clone, Copy, Debug, PartialEq, Eq, Structural)]
pub enum SeedStep {
    /// Use the key that was read.
    Use,
    /// Make a key, and install it unless there is one by then.
    Create,
    /// Use the key that was made.
    UseCreated,
    /// Another process installed one: read that.
    ReadAgain,
    Fail,
}

/// What comes once the stored key was looked for: a key is made only where
/// there is none, never in place of one that cannot be read.
pub fn after_seed_read(source: &Source) -> (step: SeedStep)
    ensures
        step == (match *source {
            Source::Read => SeedStep::Use,
            Source::NotFound => SeedStep::Create,
            Source::Failed => SeedStep::Fail,
        }),
{
    match source {
        Source::Read => SeedStep::Use,
        Source::NotFound => SeedStep::Create,
        Source::Failed => SeedStep::Fail,
    }
}

/// What comes once a key was made: `installed` tells whether it was the
/// first.
pub fn after_seed_install(installed: bool) -> (step: SeedStep)
    ensures
        step == (if installed {
            SeedStep::UseCreated
        } else {
            SeedStep::ReadAgain
        }),
{
    if installed {
        SeedStep::UseCreated
    } else {
        SeedStep::ReadAgain
    }
}

/// A backend that this build does not have, or that is not known, is never
/// replaced by another: the start fails.
pub proof fn law_backends_are_never_guessed(
    name: Seq<char>,
    endpoint: Option<Seq<char>>,
    kafka: bool,
    nats: bool,
)
    ensures
        bridge_choice(name, endpoint, kafka, nats) matches Ok(chosen) ==> {
            &&& chosen == BackendView::BuiltIn <==> name == "embedded"@
            &&& chosen matches BackendView::Remote { name: used, endpoint: at } ==> used == name && endpoint == Some(
                at,
            ) && (name == "kafka"@ && kafka || name == "nats"@ && nats)
        },
{
}

/// A backend outside is used only where this build has it and its endpoint
/// is configured, and then under its own name at that endpoint.
pub proof fn law_remote_backends_need_an_endpoint(name: Seq<char>, available: bool, endpoint: Option<Seq<char>>, needed: Seq<char>)
    ensures
        remote(name, available, endpoint, needed) is Ok <==> available && endpoint is Some,
        remote(name, available, endpoint, needed) matches Ok(chosen) ==> chosen == (BackendView::Remote {
            name,
            endpoint: endpoint->0,
        }),
{
}

/// Of two backends the one that is named is chosen; no other name is known.
pub proof fn law_named_backends_are_chosen(
    kind: Seq<char>,
    name: Seq<char>,
    built_in: Seq<char>,
    other: Seq<char>,
    available: bool,
    endpoint: Option<Seq<char>>,
    needed: Seq<char>,
)
    ensures
        ({
            let chosen = simple_choice(kind, name, built_in, other, available, endpoint, needed);
            &&& chosen == Ok::<BackendView, Seq<char>>(BackendView::BuiltIn) <==> name == built_in
            &&& chosen is Ok ==> name == built_in || name == other
            &&& name == other && name != built_in ==> (chosen is Ok <==> available && endpoint is Some)
        }),
{
}

/// The schema of a tool stands in a file of its name, with the ending
/// ".json"; no other file is one.
pub proof fn law_schemas_are_named_for_their_tool(name: Seq<char>, tool: Seq<char>)
    requires
        tool.len() > 0,
    ensures
        schema_of(tool + ".json"@) == Some(tool),
        schema_of(name) == Some(tool) ==> name == tool + ".json"@,
{
    let file = tool + ".json"@;
    assert(file.skip(file.len() - ".json"@.len()) =~= ".json"@);
    assert(file.take(file.len() - ".json"@.len()) =~= tool);
    if schema_of(name) == Some(tool) {
        assert(name =~= name.take(name.len() - ".json"@.len()) + name.skip(name.len() - ".json"@.len()));
    }
}

/// Without schemas, tools are not let through where schemas are required.
pub proof fn law_missing_schemas_are_noticed(config: HarnessConfig, loaded: nat)
    ensures
        lacks_schemas(config, loaded) <==> config.require_tool_schema && loaded == 0,
{
}

/// A backend outside that is refused is refused for what is missing: first
/// the build, else the setting, which is named.
pub proof fn law_refused_backends_are_told_why(
    kind: Seq<char>,
    name: Seq<char>,
    endpoint: Option<Seq<char>>,
    kafka: bool,
    nats: bool,
)
    ensures
        name == "kafka"@ && !kafka ==> bridge_choice(name, endpoint, kafka, nats) == Err::<BackendView, Seq<char>>(
            name + " backend requested but agent-bridge was built without feature "@ + name,
        ),
        name == "kafka"@ && kafka && endpoint is None ==> bridge_choice(name, endpoint, kafka, nats) == Err::<
            BackendView,
            Seq<char>,
        >("bridge_endpoint"@ + " is required for "@ + name),
        name == "nats"@ && name != "kafka"@ && name != "embedded"@ && nats && endpoint is None ==> bridge_choice(
            name,
            endpoint,
            kafka,
            nats,
        ) == Err::<BackendView, Seq<char>>("bridge_endpoint"@ + " is required for "@ + name),
        name != "embedded"@ && name != "kafka"@ && name != "nats"@ ==> bridge_choice(name, endpoint, kafka, nats) == Err::<
            BackendView,
            Seq<char>,
        >("unsupported "@ + "bridge"@ + " backend "@ + headers::debug_text(name)),
        unsupported(kind, name) == "unsupported "@ + kind + " backend "@ + headers::debug_text(name),
{
    reveal_strlit("embedded");
    reveal_strlit("kafka");
    reveal_strlit("nats");
    assert("embedded"@.len() == 8 && "kafka"@.len() == 5 && "nats"@.len() == 4);
}

/// A setting says something where it is there and not empty.
pub proof fn law_empty_settings_say_nothing(s: Option<Seq<char>>)
    ensures
        is_given(s) <==> (s matches Some(t) && t != Seq::<char>::empty()),
        bad_schema(s->0) == "parse tool schema "@ + s->0,
        s is None ==> debug_opt(s) == "None"@,
        s matches Some(t) ==> debug_opt(s) == "Some("@ + headers::debug_text(t) + ")"@,
{
    if let Some(t) = s {
        if t.len() == 0 {
            assert(t =~= Seq::<char>::empty());
        }
    }
}

} // verus!
