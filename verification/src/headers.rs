//! HTTP header fields: what names and values may be, which fields of a
//! provider's response cross over to the client, and the control fields of a
//! request.

use vstd::prelude::*;
use crate::errors;
use crate::errors::PipelineError;
use crate::session::Workflow;
use crate::text;

verus! {

/// Field that names the session of a request.
pub const SESSION_HEADER: &'static str = "x-ab-session";

/// Field that names the workflow of a request.
pub const WORKFLOW_HEADER: &'static str = "x-ab-workflow";

/// Field that tells the client the time spent in the harness.
pub const MIDDLEWARE_US_HEADER: &'static str = "x-ab-middleware-us";

/// Header fields, in order: the name in small letters, and the bytes of the value.
#[derive(Debug)]
pub struct Headers {
    pub fields: Vec<(String, Vec<u8>)>,
}

impl View for Headers {
    type V = Seq<(Seq<char>, Seq<u8>)>;

    open spec fn view(&self) -> Seq<(Seq<char>, Seq<u8>)> {
        self.fields@.map_values(|f: (String, Vec<u8>)| (f.0@, f.1@))
    }
}

/// The values of all fields called `name`, in order.
pub open spec fn values_of(fields: Seq<(Seq<char>, Seq<u8>)>, name: Seq<char>) -> Seq<Seq<u8>>
    decreases fields.len(),
{
    if fields.len() == 0 {
        Seq::empty()
    } else if fields.last().0 == name {
        values_of(fields.drop_last(), name).push(fields.last().1)
    } else {
        values_of(fields.drop_last(), name)
    }
}

/// The only value called `name`: none where there is no such field, and a
/// refusal where there are several.
pub open spec fn single(fields: Seq<(Seq<char>, Seq<u8>)>, name: Seq<char>) -> Result<
    Option<Seq<u8>>,
    errors::ErrorView,
> {
    let values = values_of(fields, name);
    if values.len() == 0 {
        Ok(None)
    } else if values.len() == 1 {
        Ok(Some(values[0]))
    } else {
        Err(errors::bad_request("request carries more than one "@ + name + " header; provide exactly one"@))
    }
}

/// Whether a byte may stand in a header value that is read as text.
pub open spec fn is_text_byte(b: u8) -> bool {
    32 <= b < 127 || b == 9
}

/// The text of a header value; only visible ASCII, spaces and tabs make one.
pub open spec fn value_text(bytes: Seq<u8>) -> Option<Seq<char>> {
    if forall|i: int| 0 <= i < bytes.len() ==> is_text_byte(#[trigger] bytes[i]) {
        Some(bytes.map_values(|b: u8| b as char))
    } else {
        None
    }
}

/// The text of a header value.
pub fn header_text(bytes: &Vec<u8>) -> (read: Option<String>)
    ensures
        text::opt_text(read) == value_text(bytes@),
{
    let mut s: String = String::new();
    let mut i: usize = 0;
    while i < bytes.len()
        invariant
            i <= bytes@.len(),
            s@ == bytes@.map_values(|b: u8| b as char).take(i as int),
            forall|k: int| 0 <= k < i ==> is_text_byte(#[trigger] bytes@[k]),
        decreases bytes.len() - i,
    {
        let b: u8 = bytes[i];
        if !((32 <= b && b < 127) || b == 9) {
            assert(!is_text_byte(bytes@[i as int]));
            return None;
        }
        s.push(b as char);
        i += 1;
    }
    assert(bytes@.map_values(|b: u8| b as char).take(i as int) =~= bytes@.map_values(|b: u8| b as char));
    Some(s)
}

impl Headers {
    /// The only value called `name`. A request that repeats a control field
    /// could be read differently along its way, and is refused.
    pub fn single_header(&self, name: &str) -> (value: Result<Option<&Vec<u8>>, PipelineError>)
        ensures
            match value {
                Ok(None) => single(self@, name@) == Ok::<Option<Seq<u8>>, errors::ErrorView>(None),
                Ok(Some(v)) => single(self@, name@) == Ok::<Option<Seq<u8>>, errors::ErrorView>(Some(v@)),
                Err(e) => single(self@, name@) == Err::<Option<Seq<u8>>, errors::ErrorView>(e@),
            },
    {
        let mut found: Option<&Vec<u8>> = None;
        let mut several: bool = false;
        let mut i: usize = 0;
        while i < self.fields.len()
            invariant
                i <= self.fields@.len(),
                self@.len() == self.fields@.len(),
                ({
                    let values = values_of(self@.take(i as int), name@);
                    &&& several == (values.len() >= 2)
                    &&& match found {
                        Some(v) => values.len() >= 1 && values[0] == v@,
                        None => values.len() == 0,
                    }
                }),
            decreases self.fields.len() - i,
        {
            proof {
                assert(self@.take(i + 1).drop_last() =~= self@.take(i as int));
                assert(self@.take(i + 1).last() == (self.fields@[i as int].0@, self.fields@[i as int].1@));
            }
            if text::same_text(self.fields[i].0.as_str(), name) {
                if found.is_some() {
                    several = true;
                } else {
                    found = Some(&self.fields[i].1);
                }
            }
            i += 1;
        }
        assert(self@.take(i as int) =~= self@);
        if several {
            return Err(
                PipelineError::BadRequest(
                    text::concat3("request carries more than one ", name, " header; provide exactly one"),
                ),
            );
        }
        Ok(found)
    }
}

/// The session that a request names: none, or a text that is still to be
/// checked as a session id.
pub open spec fn named_session(fields: Seq<(Seq<char>, Seq<u8>)>) -> Result<
    Option<Seq<char>>,
    errors::ErrorView,
> {
    match single(fields, SESSION_HEADER@) {
        Err(e) => Err(e),
        Ok(None) => Ok(None),
        Ok(Some(bytes)) => match value_text(bytes) {
            Some(name) => Ok(Some(name)),
            None => Err(errors::bad_request("X-AB-Session is not valid text"@)),
        },
    }
}

/// The session that a request names.
pub fn session_name(headers: &Headers) -> (name: Result<Option<String>, PipelineError>)
    ensures
        match name {
            Ok(s) => named_session(headers@) == Ok::<Option<Seq<char>>, errors::ErrorView>(text::opt_text(s)),
            Err(e) => named_session(headers@) == Err::<Option<Seq<char>>, errors::ErrorView>(e@),
        },
{
    match headers.single_header(SESSION_HEADER) {
        Err(e) => Err(e),
        Ok(None) => Ok(None),
        Ok(Some(bytes)) => match header_text(bytes) {
            Some(name) => Ok(Some(name)),
            None => Err(PipelineError::BadRequest("X-AB-Session is not valid text".to_owned())),
        },
    }
}

/// The session id that a request ends up with. `checked` is the outcome of
/// checking the name that the request gives, or of minting a fresh id where
/// it gives none.
pub fn session_id(checked: Result<String, String>) -> (id: Result<String, PipelineError>)
    ensures
        match (checked, id) {
            (Ok(given), Ok(taken)) => taken@ == given@,
            (Err(words), Err(e)) => e@ == errors::bad_request(words@),
            _ => false,
        },
{
    match checked {
        Ok(id) => Ok(id),
        Err(words) => Err(PipelineError::BadRequest(words)),
    }
}

/// What `{:?}` makes of a text.
pub uninterp spec fn debug_text(s: Seq<char>) -> Seq<char>;

/// `format!("{:?}")` on a text: the text in quotes, with its special
/// characters escaped. The contract claims that the text alone decides.
#[verifier::external_body]
pub(crate) fn quoted(s: &str) -> (q: String)
    ensures
        q@ == debug_text(s@),
{
    format!("{:?}", s)
}

/// The workflow that a request asks for, else the default one.
pub open spec fn asked_workflow(fields: Seq<(Seq<char>, Seq<u8>)>, default: Seq<char>) -> Result<
    Workflow,
    errors::ErrorView,
> {
    match single(fields, WORKFLOW_HEADER@) {
        Err(e) => Err(e),
        Ok(given) => {
            let name = match given {
                Some(bytes) => value_text(bytes),
                None => Some(default),
            };
            match name {
                None => Err(errors::bad_request("X-AB-Workflow is not valid text"@)),
                Some(word) => match crate::session::workflow_named(word) {
                    Some(workflow) => Ok(workflow),
                    None => Err(
                        errors::bad_request("X-AB-Workflow must be signed or unsigned, got "@ + debug_text(word)),
                    ),
                },
            }
        },
    }
}

/// The workflow that a request asks for.
pub fn workflow(headers: &Headers, default: &str) -> (asked: Result<Workflow, PipelineError>)
    ensures
        match asked {
            Ok(w) => asked_workflow(headers@, default@) == Ok::<Workflow, errors::ErrorView>(w),
            Err(e) => asked_workflow(headers@, default@) == Err::<Workflow, errors::ErrorView>(e@),
        },
{
    let given: Option<&Vec<u8>> = match headers.single_header(WORKFLOW_HEADER) {
        Ok(given) => given,
        Err(e) => {
            return Err(e);
        },
    };
    let word: String = match given {
        Some(bytes) => match header_text(bytes) {
            Some(word) => word,
            None => {
                return Err(PipelineError::BadRequest("X-AB-Workflow is not valid text".to_owned()));
            },
        },
        None => default.to_owned(),
    };
    match Workflow::parse(word.as_str()) {
        Some(workflow) => Ok(workflow),
        None => Err(
            PipelineError::BadRequest(
                text::concat2(
                    "X-AB-Workflow must be signed or unsigned, got ",
                    quoted(word.as_str()).as_str(),
                ),
            ),
        ),
    }
}

/// Whether a character may stand in the name of a header field.
pub open spec fn is_name_char(c: char) -> bool {
    ||| 'a' <= c <= 'z'
    ||| 'A' <= c <= 'Z'
    ||| '0' <= c <= '9'
    ||| c == '!' || c == '#' || c == '$' || c == '%' || c == '&' || c == '\'' || c == '*' || c == '+' || c
        == '-' || c == '.' || c == '^' || c == '_' || c == '`' || c == '|' || c == '~'
}

/// Whether a text is the name of a header field.
pub open spec fn is_header_name(s: Seq<char>) -> bool {
    1 <= s.len() <= 65535 && forall|i: int| 0 <= i < s.len() ==> is_name_char(#[trigger] s[i])
}

/// `http::HeaderName::try_from(&str)`: it accepts a text of 1 to 65535 bytes
/// that are all characters of a header name, and refuses every other.
#[verifier::external_body]
pub(crate) fn header_name_is_valid(name: &str) -> (valid: bool)
    ensures
        valid == is_header_name(name@),
{
    axum::http::HeaderName::try_from(name).is_ok()
}

/// Whether a text may be the value of a header field: no control character
/// but the tab.
pub open spec fn is_header_value(s: Seq<char>) -> bool {
    forall|i: int|
        0 <= i < s.len() ==> (#[trigger] s[i]) as u32 == 9 || ((s[i] as u32) >= 32 && (s[i] as u32) != 127)
}

/// `http::HeaderValue`, the value of a header field. Its `Debug` output hides
/// what it holds once it is marked as sensitive.
#[verifier::external_type_specification]
#[verifier::external_body]
pub struct ExHeaderValue(axum::http::HeaderValue);

/// The bytes that a header value holds.
pub uninterp spec fn field_bytes(value: axum::http::HeaderValue) -> Seq<u8>;

/// Whether a header value is marked as sensitive.
pub uninterp spec fn is_sensitive(value: axum::http::HeaderValue) -> bool;

/// `http::HeaderValue::from_str`: it accepts a text none of whose bytes is
/// below 32, save the tab, or is 127, and refuses every other. The value
/// holds the bytes of the text, and is not marked.
#[verifier::external_body]
pub(crate) fn header_value(text: &str) -> (value: Option<axum::http::HeaderValue>)
    ensures
        match value {
            Some(v) => is_header_value(text@) && field_bytes(v) == vstd::utf8::encode_utf8(text@) && !is_sensitive(v),
            None => !is_header_value(text@),
        },
{
    axum::http::HeaderValue::from_str(text).ok()
}

/// `http::HeaderValue::set_sensitive(true)`: it marks the value, and leaves
/// its bytes as they are.
#[verifier::external_body]
pub(crate) fn mark_sensitive(value: &mut axum::http::HeaderValue)
    ensures
        field_bytes(*final(value)) == field_bytes(*old(value)),
        is_sensitive(*final(value)),
{
    value.set_sensitive(true);
}

/// A header value that is marked as sensitive; none where the text cannot be
/// one.
pub fn sensitive_value(text: &str) -> (value: Option<axum::http::HeaderValue>)
    ensures
        match value {
            Some(v) => is_header_value(text@) && field_bytes(v) == vstd::utf8::encode_utf8(text@) && is_sensitive(v),
            None => !is_header_value(text@),
        },
{
    match header_value(text) {
        Some(value) => {
            let mut value = value;
            mark_sensitive(&mut value);
            Some(value)
        },
        None => None,
    }
}

/// Whether a response header field stays behind: framing and hop-by-hop
/// fields, cookies, fields that tell what the provider runs, and every field
/// that would open this origin to others.
pub open spec fn is_denied_header(name: Seq<char>) -> bool {
    ||| name == "content-length"@
    ||| name == "transfer-encoding"@
    ||| name == "connection"@
    ||| name == "upgrade"@
    ||| name == "te"@
    ||| name == "trailer"@
    ||| name == "proxy-authenticate"@
    ||| name == "proxy-authorization"@
    ||| name == "set-cookie"@
    ||| name == "server"@
    ||| name == "via"@
    ||| name == "keep-alive"@
    ||| name == "x-powered-by"@
    ||| name == "x-request-id"@
    ||| text::has_prefix(name, "access-control-"@)
}

/// Whether a field of a provider's response may be passed on to the client,
/// in whatever letters its name is written.
pub fn is_forwardable_upstream_header(name: &str) -> (forward: bool)
    ensures
        forward == !is_denied_header(text::lower(name@)),
{
    let lowered: String = text::to_lower(name);
    let n: &str = lowered.as_str();
    let denied: bool = text::same_text(n, "content-length") || text::same_text(n, "transfer-encoding")
        || text::same_text(n, "connection") || text::same_text(n, "upgrade") || text::same_text(n, "te")
        || text::same_text(n, "trailer") || text::same_text(n, "proxy-authenticate") || text::same_text(
        n,
        "proxy-authorization",
    ) || text::same_text(n, "set-cookie") || text::same_text(n, "server") || text::same_text(n, "via")
        || text::same_text(n, "keep-alive") || text::same_text(n, "x-powered-by") || text::same_text(
        n,
        "x-request-id",
    ) || text::starts_with(n, "access-control-");
    !denied
}

/// The first value called `name`, where there is one.
pub open spec fn first_value(fields: Seq<(Seq<char>, Seq<u8>)>, name: Seq<char>) -> Option<Seq<u8>>
    decreases fields.len(),
{
    if fields.len() == 0 {
        None
    } else if fields[0].0 == name {
        Some(fields[0].1)
    } else {
        first_value(fields.skip(1), name)
    }
}

impl Headers {
    /// The first value called `name`.
    pub fn first(&self, name: &str) -> (value: Option<&Vec<u8>>)
        ensures
            match value {
                Some(bytes) => first_value(self@, name@) == Some(bytes@),
                None => first_value(self@, name@) is None,
            },
    {
        let ghost all = self@;
        let mut i: usize = 0;
        assert(all.skip(0) =~= all);
        while i < self.fields.len()
            invariant
                i <= self.fields@.len(),
                all == self@,
                all.len() == self.fields@.len(),
                first_value(all, name@) == first_value(all.skip(i as int), name@),
            decreases self.fields.len() - i,
        {
            proof {
                assert(all.skip(i as int)[0] == (self.fields@[i as int].0@, self.fields@[i as int].1@));
                assert(all.skip(i as int).skip(1) =~= all.skip(i + 1));
            }
            if text::same_text(self.fields[i].0.as_str(), name) {
                return Some(&self.fields[i].1);
            }
            i += 1;
        }
        None
    }
}

/// Whether a response is an event stream, by its content type.
pub open spec fn streams_events(fields: Seq<(Seq<char>, Seq<u8>)>) -> bool {
    match first_value(fields, "content-type"@) {
        Some(bytes) => match value_text(bytes) {
            Some(kind) => text::has_prefix(kind, "text/event-stream"@),
            None => false,
        },
        None => false,
    }
}

/// Whether a response is an event stream.
pub fn is_event_stream(headers: &Headers) -> (is: bool)
    ensures
        is == streams_events(headers@),
{
    match headers.first("content-type") {
        Some(bytes) => match header_text(bytes) {
            Some(kind) => text::starts_with(kind.as_str(), "text/event-stream"),
            None => false,
        },
        None => false,
    }
}

/// The fields of a response that are passed on, in order.
pub open spec fn forwarded(fields: Seq<(Seq<char>, Seq<u8>)>) -> Seq<(Seq<char>, Seq<u8>)>
    decreases fields.len(),
{
    if fields.len() == 0 {
        Seq::empty()
    } else {
        let before = forwarded(fields.drop_last());
        if is_denied_header(text::lower(fields.last().0)) {
            before
        } else {
            before.push(fields.last())
        }
    }
}

/// Fields without those of a name.
pub open spec fn without_name(fields: Seq<(Seq<char>, Seq<u8>)>, name: Seq<char>) -> Seq<(Seq<char>, Seq<u8>)>
    decreases fields.len(),
{
    if fields.len() == 0 {
        Seq::empty()
    } else {
        let before = without_name(fields.drop_last(), name);
        if fields.last().0 == name {
            before
        } else {
            before.push(fields.last())
        }
    }
}

/// Fields with one that is set to a value, in place of all of its name. A
/// value that cannot be one of a header field leaves them as they are.
pub open spec fn with_field(fields: Seq<(Seq<char>, Seq<u8>)>, name: Seq<char>, value: Seq<char>) -> Seq<
    (Seq<char>, Seq<u8>),
> {
    if is_header_value(value) {
        without_name(fields, name).push((name, vstd::utf8::encode_utf8(value)))
    } else {
        fields
    }
}

impl Headers {
    /// The fields without those of a name, or, where that is not asked for,
    /// without those that stay behind.
    fn keep(&self, by_name: bool, name: &str) -> (kept: Headers)
        ensures
            kept@ == (if by_name {
                without_name(self@, name@)
            } else {
                forwarded(self@)
            }),
    {
        let ghost fields = self@;
        let mut kept = Headers { fields: Vec::new() };
        let mut i: usize = 0;
        proof {
            assert(fields.take(0) =~= Seq::empty());
            assert(kept@ =~= Seq::empty());
        }
        while i < self.fields.len()
            invariant
                i <= self.fields@.len(),
                fields == self@,
                fields.len() == self.fields@.len(),
                kept@ == (if by_name {
                    without_name(fields.take(i as int), name@)
                } else {
                    forwarded(fields.take(i as int))
                }),
            decreases self.fields.len() - i,
        {
            let ghost before = kept@;
            proof {
                assert(fields.take(i + 1).drop_last() =~= fields.take(i as int));
                assert(fields.take(i + 1).last() == (self.fields@[i as int].0@, self.fields@[i as int].1@));
            }
            let keeps: bool = if by_name {
                !text::same_text(self.fields[i].0.as_str(), name)
            } else {
                is_forwardable_upstream_header(self.fields[i].0.as_str())
            };
            if keeps {
                kept.fields.push((self.fields[i].0.clone(), self.fields[i].1.clone()));
                assert(kept@ =~= before.push((self.fields@[i as int].0@, self.fields@[i as int].1@)));
            }
            i += 1;
        }
        assert(fields.take(i as int) =~= fields);
        kept
    }

    /// Sets a field, in place of all of its name.
    fn set(self, name: &str, value: &str) -> (set: Headers)
        ensures
            set@ == with_field(self@, name@, value@),
    {
        if header_value(value).is_none() {
            return self;
        }
        let mut set: Headers = self.keep(true, name);
        let ghost before = set@;
        let mut bytes: Vec<u8> = Vec::new();
        bytes.extend_from_slice(value.as_bytes());
        assert(bytes@ =~= vstd::utf8::encode_utf8(value@));
        set.fields.push((name.to_owned(), bytes));
        assert(set@ =~= before.push((name@, vstd::utf8::encode_utf8(value@))));
        set
    }
}

/// The fields of the response to a client: those of the provider's that are
/// passed on, with the session and the time spent in the harness.
pub fn response_headers(upstream: &Headers, session_id: &str, middleware_us: u64) -> (headers: Headers)
    ensures
        headers@ == with_field(
            with_field(forwarded(upstream@), SESSION_HEADER@, session_id@),
            MIDDLEWARE_US_HEADER@,
            text::decimal_digits(middleware_us as nat),
        ),
{
    let passed: Headers = upstream.keep(false, "");
    let named: Headers = passed.set(SESSION_HEADER, session_id);
    named.set(MIDDLEWARE_US_HEADER, text::decimal(middleware_us).as_str())
}

/// No field that stays behind reaches the client, and every other one does,
/// as often as it came and in the same order.
pub proof fn law_denied_fields_stay_behind(fields: Seq<(Seq<char>, Seq<u8>)>, name: Seq<char>)
    ensures
        values_of(forwarded(fields), name) == (if is_denied_header(text::lower(name)) {
            Seq::<Seq<u8>>::empty()
        } else {
            values_of(fields, name)
        }),
    decreases fields.len(),
{
    if fields.len() > 0 {
        law_denied_fields_stay_behind(fields.drop_last(), name);
        let before = forwarded(fields.drop_last());
        assert(before.push(fields.last()).drop_last() =~= before);
    }
}

/// Fields none of which is called `name` have no value of that name.
proof fn lemma_no_values(fields: Seq<(Seq<char>, Seq<u8>)>, name: Seq<char>)
    requires
        forall|i: int| 0 <= i < fields.len() ==> (#[trigger] fields[i]).0 != name,
    ensures
        values_of(fields, name) == Seq::<Seq<u8>>::empty(),
    decreases fields.len(),
{
    if fields.len() > 0 {
        assert(fields[fields.len() - 1].0 != name);
        let front = fields.drop_last();
        assert(forall|i: int| 0 <= i < front.len() ==> #[trigger] front[i] == fields[i]);
        lemma_no_values(front, name);
    }
}

/// A value is there for every field of the name.
proof fn lemma_value_of_field(fields: Seq<(Seq<char>, Seq<u8>)>, name: Seq<char>, i: int)
    requires
        0 <= i < fields.len(),
        fields[i].0 == name,
    ensures
        values_of(fields, name).len() >= 1,
        (forall|j: int| 0 <= j < fields.len() && j != i ==> (#[trigger] fields[j]).0 != name) ==> values_of(fields, name)
            == seq![fields[i].1],
        (exists|j: int| 0 <= j < fields.len() && j != i && (#[trigger] fields[j]).0 == name) ==> values_of(fields, name).len()
            >= 2,
    decreases fields.len(),
{
    let front = fields.drop_last();
    assert(forall|j: int| 0 <= j < front.len() ==> #[trigger] front[j] == fields[j]);
    if i == fields.len() - 1 {
        if forall|j: int| 0 <= j < fields.len() && j != i ==> (#[trigger] fields[j]).0 != name {
            lemma_no_values(front, name);
            assert(values_of(fields, name) =~= seq![fields[i].1]);
        } else {
            let j = choose|j: int| 0 <= j < fields.len() && j != i && (#[trigger] fields[j]).0 == name;
            lemma_value_of_field(front, name, j);
        }
    } else {
        lemma_value_of_field(front, name, i);
        if forall|j: int| 0 <= j < fields.len() && j != i ==> (#[trigger] fields[j]).0 != name {
            assert(fields[fields.len() - 1].0 != name);
            assert(forall|j: int| 0 <= j < front.len() && j != i ==> (#[trigger] front[j]).0 != name);
        } else {
            let j = choose|j: int| 0 <= j < fields.len() && j != i && (#[trigger] fields[j]).0 == name;
            if j < front.len() {
                assert(front[j].0 == name);
            } else {
                assert(fields.last().0 == name);
            }
        }
    }
}

/// A control field counts only where it comes once: missing, it is missing;
/// twice, the request is a bad one, whatever the two say.
pub proof fn law_control_fields_come_once(fields: Seq<(Seq<char>, Seq<u8>)>, name: Seq<char>)
    ensures
        (forall|i: int| 0 <= i < fields.len() ==> (#[trigger] fields[i]).0 != name) ==> single(fields, name) == Ok::<
            Option<Seq<u8>>,
            errors::ErrorView,
        >(None),
        forall|i: int|
            0 <= i < fields.len() && (#[trigger] fields[i]).0 == name && (forall|j: int|
                0 <= j < fields.len() && j != i ==> (#[trigger] fields[j]).0 != name) ==> single(fields, name) == Ok::<
                Option<Seq<u8>>,
                errors::ErrorView,
            >(Some(fields[i].1)),
        forall|i: int, j: int|
            0 <= i < j < fields.len() && (#[trigger] fields[i]).0 == name && (#[trigger] fields[j]).0 == name ==> single(
                fields,
                name,
            ) is Err && single(fields, name)->Err_0.kind == errors::ErrorKind::BadRequest,
{
    if forall|i: int| 0 <= i < fields.len() ==> (#[trigger] fields[i]).0 != name {
        lemma_no_values(fields, name);
    }
    assert forall|i: int|
        0 <= i < fields.len() && (#[trigger] fields[i]).0 == name && (forall|j: int|
            0 <= j < fields.len() && j != i ==> (#[trigger] fields[j]).0 != name) implies single(fields, name) == Ok::<
        Option<Seq<u8>>,
        errors::ErrorView,
    >(Some(fields[i].1)) by {
        lemma_value_of_field(fields, name, i);
    }
    assert forall|i: int, j: int|
        0 <= i < j < fields.len() && (#[trigger] fields[i]).0 == name && (#[trigger] fields[j]).0 == name implies single(
        fields,
        name,
    ) is Err && single(fields, name)->Err_0.kind == errors::ErrorKind::BadRequest by {
        lemma_value_of_field(fields, name, i);
    }
}

/// The value of a field is read as text exactly where every byte is visible
/// ASCII, a space or a tab, and then character for byte.
pub proof fn law_field_values_are_read_as_ascii(bytes: Seq<u8>)
    ensures
        value_text(bytes) is Some <==> forall|i: int|
            0 <= i < bytes.len() ==> ((#[trigger] bytes[i]) == 9 || 32 <= bytes[i] <= 126),
        value_text(bytes) matches Some(words) ==> words.len() == bytes.len() && forall|i: int|
            0 <= i < bytes.len() ==> #[trigger] words[i] == bytes[i] as char,
{
    if value_text(bytes) is Some {
        assert forall|i: int| 0 <= i < bytes.len() implies ((#[trigger] bytes[i]) == 9 || 32 <= bytes[i] <= 126) by {
            assert(is_text_byte(bytes[i]));
        }
    }
}

/// The session of a request is the one that its only session field names.
pub proof fn law_sessions_are_named_by_one_field(fields: Seq<(Seq<char>, Seq<u8>)>)
    ensures
        match single(fields, "x-ab-session"@) {
            Ok(None) => named_session(fields) == Ok::<Option<Seq<char>>, errors::ErrorView>(None),
            Ok(Some(bytes)) => match value_text(bytes) {
                Some(name) => named_session(fields) == Ok::<Option<Seq<char>>, errors::ErrorView>(Some(name)),
                None => named_session(fields) is Err && named_session(fields)->Err_0.kind == errors::ErrorKind::BadRequest,
            },
            Err(e) => named_session(fields) == Err::<Option<Seq<char>>, errors::ErrorView>(e),
        },
{
}

/// The workflow of a request is the one that its field names, "signed" or
/// "unsigned", and only without that field the default one. Any other word is
/// a bad request.
pub proof fn law_workflows_are_asked_for_by_name(fields: Seq<(Seq<char>, Seq<u8>)>, default: Seq<char>)
    ensures
        ({
            let word = match single(fields, "x-ab-workflow"@) {
                Ok(Some(bytes)) => value_text(bytes),
                _ => Some(default),
            };
            let asked = asked_workflow(fields, default);
            &&& asked matches Ok(workflow) ==> single(fields, "x-ab-workflow"@) is Ok && word == Some(
                match workflow {
                    Workflow::Signed => "signed"@,
                    Workflow::Unsigned => "unsigned"@,
                },
            )
            &&& single(fields, "x-ab-workflow"@) is Ok && word == Some("signed"@) ==> asked == Ok::<
                Workflow,
                errors::ErrorView,
            >(Workflow::Signed)
            &&& single(fields, "x-ab-workflow"@) is Ok && word == Some("unsigned"@) ==> asked == Ok::<
                Workflow,
                errors::ErrorView,
            >(Workflow::Unsigned)
        }),
{
    reveal_strlit("signed");
    reveal_strlit("unsigned");
    assert("signed"@.len() != "unsigned"@.len());
}

/// What stays behind of a provider's response: framing, hop-by-hop and proxy
/// fields, cookies, what the provider runs, and all that would open this
/// origin to others. Nothing else does.
pub proof fn law_what_stays_behind(name: Seq<char>)
    ensures
        name == "set-cookie"@ || name == "server"@ || name == "via"@ || name == "x-powered-by"@ || name
            == "x-request-id"@ ==> is_denied_header(name),
        name == "content-length"@ || name == "transfer-encoding"@ || name == "connection"@ || name == "keep-alive"@
            || name == "upgrade"@ || name == "te"@ || name == "trailer"@ ==> is_denied_header(name),
        name == "proxy-authenticate"@ || name == "proxy-authorization"@ ==> is_denied_header(name),
        text::has_prefix(name, "access-control-"@) ==> is_denied_header(name),
        is_denied_header(name) ==> text::has_prefix(name, "access-control-"@) || name == "set-cookie"@ || name
            == "server"@ || name == "via"@ || name == "x-powered-by"@ || name == "x-request-id"@ || name
            == "content-length"@ || name == "transfer-encoding"@ || name == "connection"@ || name == "keep-alive"@ || name
            == "upgrade"@ || name == "te"@ || name == "trailer"@ || name == "proxy-authenticate"@ || name
            == "proxy-authorization"@,
{
}

/// A field that is set has one value, the new one, whatever was there before;
/// every other field stays as it is.
pub proof fn law_set_fields_replace(fields: Seq<(Seq<char>, Seq<u8>)>, name: Seq<char>, value: Seq<char>, other: Seq<char>)
    requires
        is_header_value(value),
    ensures
        values_of(with_field(fields, name, value), name) == seq![vstd::utf8::encode_utf8(value)],
        other != name ==> values_of(with_field(fields, name, value), other) == values_of(fields, other),
{
    let kept = without_name(fields, name);
    let set = with_field(fields, name, value);
    assert(set.drop_last() =~= kept);
    lemma_without_name(fields, name, other);
    lemma_without_name(fields, name, name);
    assert(values_of(set, name) =~= seq![vstd::utf8::encode_utf8(value)]);
}

/// Taking the fields of one name out leaves the values of the others.
proof fn lemma_without_name(fields: Seq<(Seq<char>, Seq<u8>)>, name: Seq<char>, other: Seq<char>)
    ensures
        values_of(without_name(fields, name), other) == (if other == name {
            Seq::<Seq<u8>>::empty()
        } else {
            values_of(fields, other)
        }),
    decreases fields.len(),
{
    if fields.len() > 0 {
        lemma_without_name(fields.drop_last(), name, other);
        let before = without_name(fields.drop_last(), name);
        assert(before.push(fields.last()).drop_last() =~= before);
    }
}

/// Every response tells the client its session and the time that was spent
/// on it, once each and truthfully, even where the provider's response has
/// fields of these names.
pub proof fn law_responses_name_their_session(fields: Seq<(Seq<char>, Seq<u8>)>, session_id: Seq<char>, middleware_us: Seq<char>)
    requires
        is_header_value(session_id),
        is_header_value(middleware_us),
    ensures
        ({
            let told = with_field(with_field(forwarded(fields), SESSION_HEADER@, session_id), MIDDLEWARE_US_HEADER@, middleware_us);
            &&& values_of(told, "x-ab-session"@) == seq![vstd::utf8::encode_utf8(session_id)]
            &&& values_of(told, "x-ab-middleware-us"@) == seq![vstd::utf8::encode_utf8(middleware_us)]
        }),
{
    reveal_strlit("x-ab-session");
    reveal_strlit("x-ab-middleware-us");
    assert("x-ab-session"@.len() != "x-ab-middleware-us"@.len());
    law_set_fields_replace(forwarded(fields), SESSION_HEADER@, session_id, SESSION_HEADER@);
    law_set_fields_replace(
        with_field(forwarded(fields), SESSION_HEADER@, session_id),
        MIDDLEWARE_US_HEADER@,
        middleware_us,
        SESSION_HEADER@,
    );
}

/// A response is an event stream by the beginning of its first content type.
pub proof fn law_event_streams_are_told_by_their_type(fields: Seq<(Seq<char>, Seq<u8>)>, i: int)
    requires
        0 <= i < fields.len(),
        fields[i].0 == "content-type"@,
        forall|j: int| 0 <= j < i ==> (#[trigger] fields[j]).0 != "content-type"@,
    ensures
        streams_events(fields) <==> (value_text(fields[i].1) matches Some(kind) && text::has_prefix(
            kind,
            "text/event-stream"@,
        )),
{
    lemma_first_value(fields, "content-type"@, i);
}

/// The first value of a name is that of the first field of the name.
proof fn lemma_first_value(fields: Seq<(Seq<char>, Seq<u8>)>, name: Seq<char>, i: int)
    requires
        0 <= i < fields.len(),
        fields[i].0 == name,
        forall|j: int| 0 <= j < i ==> (#[trigger] fields[j]).0 != name,
    ensures
        first_value(fields, name) == Some(fields[i].1),
    decreases fields.len(),
{
    if i > 0 {
        assert(fields[0].0 != name);
        let rest = fields.skip(1);
        assert(forall|j: int| 0 <= j < i - 1 ==> #[trigger] rest[j] == fields[j + 1]);
        assert(rest[i - 1] == fields[i]);
        lemma_first_value(rest, name, i - 1);
    }
}

/// A header that is given twice, or is no text, or names no workflow, is
/// refused by its name.
pub proof fn law_refused_headers_are_named(fields: Seq<(Seq<char>, Seq<u8>)>, name: Seq<char>, default: Seq<char>, bytes: Seq<u8>)
    ensures
        values_of(fields, name).len() > 1 ==> single(fields, name) == Err::<Option<Seq<u8>>, errors::ErrorView>(
            errors::ErrorView {
                kind: errors::ErrorKind::BadRequest,
                detail: "request carries more than one "@ + name + " header; provide exactly one"@,
            },
        ),
        values_of(fields, SESSION_HEADER@) == seq![bytes] && value_text(bytes) is None ==> named_session(fields) == Err::<
            Option<Seq<char>>,
            errors::ErrorView,
        >(errors::ErrorView { kind: errors::ErrorKind::BadRequest, detail: "X-AB-Session is not valid text"@ }),
        values_of(fields, WORKFLOW_HEADER@) == seq![bytes] && value_text(bytes) is None ==> asked_workflow(fields, default)
            == Err::<Workflow, errors::ErrorView>(
            errors::ErrorView { kind: errors::ErrorKind::BadRequest, detail: "X-AB-Workflow is not valid text"@ },
        ),
        (values_of(fields, WORKFLOW_HEADER@) == seq![bytes] && (value_text(bytes) matches Some(word)
            && crate::session::workflow_named(word) is None)) ==> asked_workflow(fields, default) == Err::<
            Workflow,
            errors::ErrorView,
        >(
            errors::ErrorView {
                kind: errors::ErrorKind::BadRequest,
                detail: "X-AB-Workflow must be signed or unsigned, got "@ + debug_text(value_text(bytes)->0),
            },
        ),
{
}

} // verus!
