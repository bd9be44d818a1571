//! Who a request comes from, and what it may do.

use vstd::prelude::*;
use crate::config::HarnessConfig;
use crate::errors;
use crate::errors::PipelineError;
use crate::headers;
use crate::headers::Headers;
use crate::session::{AgentIdentity, IdentityView};
use crate::text;

verus! {

/// Scope for a tool call whose tool cannot be told.
pub const TOOL_INVOKE_SCOPE: &'static str = "tool:invoke";

/// The scope that a tool asks for.
pub fn tool_scope(tool: &str) -> (scope: String)
    ensures
        scope@ == "tool:"@ + tool@,
{
    text::concat2("tool:", tool)
}

/// Whether one granted scope covers a required one: it is the wildcard, the
/// scope itself, or a namespace with everything below it.
pub open spec fn scope_covers(scope: Seq<char>, required: Seq<char>) -> bool {
    ||| scope == "*"@
    ||| scope == required
    ||| text::without_suffix(scope, ":*"@) matches Some(namespace) && text::has_prefix(
        required,
        namespace + ":"@,
    )
}

/// Whether one of the granted scopes covers a required one.
pub open spec fn scopes_cover(scopes: Seq<Seq<char>>, required: Seq<char>) -> bool {
    exists|i: int| 0 <= i < scopes.len() && scope_covers(#[trigger] scopes[i], required)
}

/// Whether one of the granted scopes covers a required one.
pub fn scope_allows(scopes: &[String], required: &str) -> (allowed: bool)
    ensures
        allowed == scopes_cover(text::texts(scopes@), required@),
{
    let mut i: usize = 0;
    while i < scopes.len()
        invariant
            i <= scopes@.len(),
            forall|k: int| 0 <= k < i ==> !scope_covers(#[trigger] text::texts(scopes@)[k], required@),
        decreases scopes.len() - i,
    {
        let scope: &str = scopes[i].as_str();
        let covered: bool = text::same_text(scope, "*") || text::same_text(scope, required)
            || match text::strip_suffix(scope, ":*") {
            Some(namespace) => text::starts_with(required, text::concat2(namespace.as_str(), ":").as_str()),
            None => false,
        };
        assert(text::texts(scopes@)[i as int] == scope@);
        assert(covered == scope_covers(text::texts(scopes@)[i as int], required@));
        if covered {
            return true;
        }
        i += 1;
    }
    assert(text::texts(scopes@).len() == scopes@.len());
    false
}

/// More scopes allow no less.
pub proof fn law_scopes_only_add(scopes: Seq<Seq<char>>, more: Seq<Seq<char>>, required: Seq<char>)
    requires
        scopes_cover(scopes, required),
    ensures
        scopes_cover(scopes + more, required),
        scopes_cover(more + scopes, required),
{
    let i = choose|i: int| 0 <= i < scopes.len() && scope_covers(#[trigger] scopes[i], required);
    assert((scopes + more)[i] == scopes[i]);
    assert((more + scopes)[more.len() + i] == scopes[i]);
}

/// A namespace scope covers exactly what lies below that namespace: nothing
/// of another one, not even where its name begins alike.
pub proof fn law_namespace_scope(namespace: Seq<char>, required: Seq<char>)
    ensures
        scope_covers(namespace + ":*"@, required) <==> text::has_prefix(required, namespace + ":"@),
{
    reveal_strlit(":*");
    reveal_strlit(":");
    reveal_strlit("*");
    let scope = namespace + ":*"@;
    assert(scope.skip(scope.len() - 2) =~= ":*"@);
    assert(scope.take(scope.len() - 2) =~= namespace);
    assert(scope.len() != "*"@.len());
    assert(scope.take(namespace.len() as int + 1) =~= namespace + ":"@);
}

/// Why an identity token was refused.
#[derive(Debug)]
pub enum IdentityError {
    Malformed(String),
    MissingKid,
    UnknownKid(String),
    AlgorithmRejected { alg: String, kid: String },
    Verification(String),
    TtlTooLong(u64),
    BadTimestamps { iat: u64, exp: u64 },
    FutureIat { iat: u64, now: u64 },
    EmptyField(String),
    SpoofingCharacter(String),
    BadIssuer(String),
    ScopeEscalation { scope: String },
    ExpEscalation { child: u64, parent: u64 },
    ChainTooDeep(usize),
    /// The keys of the validator itself are unusable.
    Jwks(String),
}

/// What a client is told of a refused token: nothing of the token, nor of
/// what the validator holds.
pub open spec fn identity_words(error: IdentityError) -> Seq<char> {
    if error is Jwks {
        "identity validator misconfigured"@
    } else {
        "identity validation failed"@
    }
}

/// What a client is told of a refused token.
pub fn classify_identity_error(error: &IdentityError) -> (words: &'static str)
    ensures
        words@ == identity_words(*error),
{
    match error {
        IdentityError::Jwks(_) => "identity validator misconfigured",
        _ => "identity validation failed",
    }
}

/// All refusals that a token can bring about look alike.
pub proof fn law_token_refusals_look_alike(a: IdentityError, b: IdentityError)
    requires
        a !is Jwks,
        b !is Jwks,
    ensures
        identity_words(a) == identity_words(b),
{
}

/// The token that a request presents.
pub open spec fn presented_token(fields: Seq<(Seq<char>, Seq<u8>)>) -> Result<
    Option<Seq<char>>,
    errors::ErrorView,
> {
    match headers::single(fields, "authorization"@) {
        Err(e) => Err(e),
        Ok(None) => Ok(None),
        Ok(Some(bytes)) => match headers::value_text(bytes) {
            None => Ok(None),
            Some(value) => Ok(text::without_prefix(value, "Bearer "@)),
        },
    }
}

/// The token that a request presents.
pub fn bearer_token(headers: &Headers) -> (token: Result<Option<String>, PipelineError>)
    ensures
        match token {
            Ok(t) => presented_token(headers@) == Ok::<Option<Seq<char>>, errors::ErrorView>(text::opt_text(t)),
            Err(e) => presented_token(headers@) == Err::<Option<Seq<char>>, errors::ErrorView>(e@),
        },
{
    match headers.single_header("authorization") {
        Err(e) => Err(e),
        Ok(None) => Ok(None),
        Ok(Some(bytes)) => match headers::header_text(bytes) {
            None => Ok(None),
            Some(value) => Ok(text::strip_prefix(value.as_str(), "Bearer ")),
        },
    }
}

/// The identity of a request that needs none.
pub open spec fn anonymous() -> IdentityView {
    IdentityView {
        version: "dev"@,
        charter: "anonymous"@,
        instance_uid: "anonymous"@,
        ttl_remaining_s: None,
    }
}

/// How a request is identified.
#[derive(Debug)]
pub enum IdentityRoute {
    /// The token is to be validated.
    Validate(String),
    /// The request goes on without an identity.
    Anonymous(AgentIdentity),
    /// The request is refused.
    Refuse(PipelineError),
}

/// An [`IdentityRoute`] by its contents.
pub enum RouteView {
    Validate(Seq<char>),
    Anonymous(IdentityView),
    Refuse(errors::ErrorView),
}

impl View for IdentityRoute {
    type V = RouteView;

    open spec fn view(&self) -> RouteView {
        match self {
            IdentityRoute::Validate(token) => RouteView::Validate(token@),
            IdentityRoute::Anonymous(identity) => RouteView::Anonymous(identity@),
            IdentityRoute::Refuse(e) => RouteView::Refuse(e@),
        }
    }
}

/// How a request is identified: by its token, where there is a validator.
/// Without one, a token is only accepted where it is meant for the provider,
/// so that no request with a token is recorded as anonymous by accident.
pub open spec fn identity_route(
    fields: Seq<(Seq<char>, Seq<u8>)>,
    has_validator: bool,
    passthrough: bool,
    required: bool,
) -> RouteView {
    match presented_token(fields) {
        Err(e) => RouteView::Refuse(e),
        Ok(Some(token)) => if has_validator {
            RouteView::Validate(token)
        } else if passthrough {
            RouteView::Anonymous(anonymous())
        } else {
            RouteView::Refuse(
                errors::unauthorized(
                    "bearer token presented but identity validator is not configured — refusing to silently record the request as anonymous (either configure identity_jwks_url / identity_hmac_secret_file, or set upstream_authorization_passthrough=true if the bearer is meant for the upstream provider)"@,
                ),
            )
        },
        Ok(None) => if required {
            RouteView::Refuse(errors::unauthorized("missing bearer token"@))
        } else {
            RouteView::Anonymous(anonymous())
        },
    }
}

/// The identity of a request that needs none.
pub fn anonymous_identity() -> (identity: AgentIdentity)
    ensures
        identity@ == anonymous(),
{
    AgentIdentity {
        version: "dev".to_owned(),
        charter: "anonymous".to_owned(),
        instance_uid: "anonymous".to_owned(),
        ttl_remaining_s: None,
    }
}

/// How a request is identified.
pub fn route_identity(headers: &Headers, has_validator: bool, config: &HarnessConfig) -> (route: IdentityRoute)
    ensures
        route@ == identity_route(
            headers@,
            has_validator,
            config.upstream_authorization_passthrough,
            config.require_identity,
        ),
{
    match bearer_token(headers) {
        Err(e) => IdentityRoute::Refuse(e),
        Ok(Some(token)) => {
            if has_validator {
                IdentityRoute::Validate(token)
            } else if config.upstream_authorization_passthrough {
                IdentityRoute::Anonymous(anonymous_identity())
            } else {
                IdentityRoute::Refuse(
                    PipelineError::Unauthorized(
                        "bearer token presented but identity validator is not configured — refusing to silently record the request as anonymous (either configure identity_jwks_url / identity_hmac_secret_file, or set upstream_authorization_passthrough=true if the bearer is meant for the upstream provider)".to_owned(),
                    ),
                )
            }
        },
        Ok(None) => {
            if config.require_identity {
                IdentityRoute::Refuse(PipelineError::Unauthorized("missing bearer token".to_owned()))
            } else {
                IdentityRoute::Anonymous(anonymous_identity())
            }
        },
    }
}

/// Where identities are required and can be validated, no request goes on
/// without a valid token.
pub proof fn law_required_identity_is_never_anonymous(
    fields: Seq<(Seq<char>, Seq<u8>)>,
    passthrough: bool,
)
    ensures
        !(identity_route(fields, true, passthrough, true) is Anonymous),
        identity_route(fields, true, passthrough, true) matches RouteView::Validate(token) ==> presented_token(
            fields,
        ) == Ok::<Option<Seq<char>>, errors::ErrorView>(Some(token)),
{
}

/// A request whose credential is repeated is refused, however identities are
/// configured.
pub proof fn law_repeated_credential_is_refused(
    fields: Seq<(Seq<char>, Seq<u8>)>,
    has_validator: bool,
    passthrough: bool,
    required: bool,
)
    requires
        headers::values_of(fields, "authorization"@).len() >= 2,
    ensures
        identity_route(fields, has_validator, passthrough, required) matches RouteView::Refuse(e) && e.kind
            == errors::ErrorKind::BadRequest,
{
}

/// What a validator says of a token: the agent, and the scopes it was granted.
#[derive(Debug)]
pub struct ValidatedIdentity {
    pub identity: AgentIdentity,
    pub scopes: Vec<String>,
}

/// What stands against a validated token, if anything does.
pub open spec fn scope_fault(
    scopes: Seq<Seq<char>>,
    enforce: bool,
    required: Option<Seq<char>>,
) -> Option<errors::ErrorView> {
    match required {
        Some(scope) => if enforce && !scopes_cover(scopes, scope) {
            Some(
                errors::unauthorized("identity scope "@ + headers::debug_text(scope) + " is required"@),
            )
        } else {
            None
        },
        None => None,
    }
}

/// The identity that a token proves, or why it is refused. `outcome` is what
/// the validator said of it.
pub fn accept_identity(
    outcome: Result<ValidatedIdentity, IdentityError>,
    enforce_scopes: bool,
    required_scope: Option<&str>,
) -> (accepted: Result<AgentIdentity, PipelineError>)
    ensures
        ({
            let required = match required_scope {
                Some(scope) => Some(scope@),
                None => None,
            };
            match outcome {
                Err(error) => accepted matches Err(e) && e@ == errors::unauthorized(identity_words(error)),
                Ok(validated) => match scope_fault(text::texts(validated.scopes@), enforce_scopes, required) {
                    Some(fault) => accepted matches Err(e) && e@ == fault,
                    None => accepted matches Ok(identity) && identity@ == validated.identity@,
                },
            }
        }),
{
    match outcome {
        Err(error) => Err(PipelineError::Unauthorized(classify_identity_error(&error).to_owned())),
        Ok(validated) => {
            if enforce_scopes {
                if let Some(required) = required_scope {
                    if !scope_allows(validated.scopes.as_slice(), required) {
                        return Err(
                            PipelineError::Unauthorized(
                                text::concat3(
                                    "identity scope ",
                                    headers::quoted(required).as_str(),
                                    " is required",
                                ),
                            ),
                        );
                    }
                }
            }
            Ok(validated.identity)
        },
    }
}

/// The token of a request is what follows "Bearer " in its only
/// authorization field; another kind of credential is no token.
pub proof fn law_tokens_follow_the_word_bearer(fields: Seq<(Seq<char>, Seq<u8>)>, bytes: Seq<u8>, token: Seq<char>)
    requires
        headers::single(fields, "authorization"@) == Ok::<Option<Seq<u8>>, errors::ErrorView>(Some(bytes)),
    ensures
        headers::value_text(bytes) == Some("Bearer "@ + token) ==> presented_token(fields) == Ok::<
            Option<Seq<char>>,
            errors::ErrorView,
        >(Some(token)),
        (headers::value_text(bytes) matches Some(value) && !text::has_prefix(value, "Bearer "@)) ==> presented_token(fields)
            == Ok::<Option<Seq<char>>, errors::ErrorView>(None),
        presented_token(fields) matches Ok(Some(found)) ==> headers::value_text(bytes) == Some("Bearer "@ + found),
{
    let value = "Bearer "@ + token;
    assert(value.take("Bearer "@.len() as int) =~= "Bearer "@);
    assert(value.skip("Bearer "@.len() as int) =~= token);
    if let Ok(Some(found)) = presented_token(fields) {
        let whole = headers::value_text(bytes)->0;
        assert(whole =~= "Bearer "@ + found);
    }
}

/// A token is validated where there is a validator. Without one a request
/// with a token goes on as anonymous only where the token is meant for the
/// provider, and a request without a token only where none is required.
pub proof fn law_requests_are_identified(
    fields: Seq<(Seq<char>, Seq<u8>)>,
    has_validator: bool,
    passthrough: bool,
    required: bool,
)
    ensures
        ({
            let route = identity_route(fields, has_validator, passthrough, required);
            match presented_token(fields) {
                Err(e) => route == RouteView::Refuse(e),
                Ok(Some(token)) => {
                    &&& has_validator ==> route == RouteView::Validate(token)
                    &&& !has_validator ==> (route is Anonymous <==> passthrough)
                    &&& !has_validator && !passthrough ==> (route matches RouteView::Refuse(e) && e.kind
                        == errors::ErrorKind::Unauthorized)
                },
                Ok(None) => {
                    &&& route is Anonymous <==> !required
                    &&& required ==> (route matches RouteView::Refuse(e) && e.kind == errors::ErrorKind::Unauthorized)
                },
            }
        }),
        identity_route(fields, has_validator, passthrough, required) matches RouteView::Anonymous(who)
            ==> who.instance_uid == "anonymous"@ && who.charter == "anonymous"@ && who.ttl_remaining_s is None,
{
}

/// Where scopes are enforced, a required scope must be among the granted
/// ones: as the wildcard, as itself, or below a granted namespace. Where they
/// are not, or none is required, any valid token will do.
pub proof fn law_scopes_are_enforced(scopes: Seq<Seq<char>>, enforce: bool, required: Seq<char>)
    ensures
        scope_fault(scopes, enforce, None) is None,
        scope_fault(scopes, false, Some(required)) is None,
        scope_fault(scopes, true, Some(required)) is None <==> exists|i: int|
            0 <= i < scopes.len() && ((#[trigger] scopes[i]) == "*"@ || scopes[i] == required || (text::has_suffix(
                scopes[i],
                ":*"@,
            ) && text::has_prefix(required, scopes[i].take(scopes[i].len() - 1)))),
        scope_fault(scopes, enforce, Some(required)) matches Some(e) ==> e.kind == errors::ErrorKind::Unauthorized,
{
    reveal_strlit(":*");
    reveal_strlit(":");
    assert forall|s: Seq<char>| #[trigger] text::has_suffix(s, ":*"@) implies s.take(s.len() - 2) + ":"@ =~= s.take(
        s.len() - 1,
    ) by {
        assert(s.skip(s.len() - 2)[0] == ':');
        assert(s[s.len() - 2] == ':');
    }
    if scopes_cover(scopes, required) {
        let i = choose|i: int| 0 <= i < scopes.len() && scope_covers(#[trigger] scopes[i], required);
        assert(scopes[i] == scopes[i]);
    }
    if exists|i: int|
        0 <= i < scopes.len() && ((#[trigger] scopes[i]) == "*"@ || scopes[i] == required || (text::has_suffix(
            scopes[i],
            ":*"@,
        ) && text::has_prefix(required, scopes[i].take(scopes[i].len() - 1)))) {
        let i = choose|i: int|
            0 <= i < scopes.len() && ((#[trigger] scopes[i]) == "*"@ || scopes[i] == required || (text::has_suffix(
                scopes[i],
                ":*"@,
            ) && text::has_prefix(required, scopes[i].take(scopes[i].len() - 1))));
        assert(scope_covers(scopes[i], required));
    }
}

/// Only keys of the validator itself are told apart from a bad token.
pub proof fn law_only_the_validator_is_told_apart(error: IdentityError)
    ensures
        identity_words(error) == "identity validator misconfigured"@ <==> error is Jwks,
        identity_words(error) == "identity validation failed"@ <==> !(error is Jwks),
{
    reveal_strlit("identity validator misconfigured");
    reveal_strlit("identity validation failed");
    assert("identity validator misconfigured"@.len() != "identity validation failed"@.len());
}

/// Whoever needs no identity is anonymous, and for no limited time.
pub proof fn law_anonymous_is_nobody()
    ensures
        anonymous().instance_uid == "anonymous"@,
        anonymous().charter == "anonymous"@,
        anonymous().version == "dev"@,
        anonymous().ttl_remaining_s is None,
{
}

/// Who has no token where one is needed, or one that nobody checks, is told
/// so, and so is who lacks a scope.
pub proof fn law_refused_callers_are_told_why(
    fields: Seq<(Seq<char>, Seq<u8>)>,
    scopes: Seq<Seq<char>>,
    scope: Seq<char>,
)
    ensures
        presented_token(fields) == Ok::<Option<Seq<char>>, errors::ErrorView>(None) ==> identity_route(
            fields,
            true,
            false,
            true,
        ) == RouteView::Refuse(
            errors::ErrorView { kind: errors::ErrorKind::Unauthorized, detail: "missing bearer token"@ },
        ),
        !scopes_cover(scopes, scope) ==> scope_fault(scopes, true, Some(scope)) == Some(
            errors::ErrorView {
                kind: errors::ErrorKind::Unauthorized,
                detail: "identity scope "@ + headers::debug_text(scope) + " is required"@,
            },
        ),
{
}

} // verus!
