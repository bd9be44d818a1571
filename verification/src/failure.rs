//! Records of requests that fail on their way.

use vstd::prelude::*;
use vstd::utf8::encode_utf8;
use crate::audit;
use crate::audit::{
    AtifCapture,
    AtifView,
    AuditRecord,
    EventClass,
    Payload,
    PayloadView,
    RecordView,
    ResponseAttempt,
    Source,
    StatusId,
};
use crate::headers;
use crate::json::{Json, JsonTree};
use crate::provider::{EventMetrics, StopReason};
use crate::session::{AgentIdentity, IdentityView, Workflow};
use crate::text;

verus! {

/// The record of a failure. An unsigned session has no other trace of it, so
/// there it is a step of the trajectory too.
pub open spec fn failure(workflow: Workflow, stop_reason: StopReason, reason: Seq<char>) -> RecordView {
    RecordView {
        class: EventClass::StopReason,
        payload: PayloadView::Reason { reason },
        text: Seq::empty(),
        analyze_loop: false,
        status: StatusId::Failure,
        stop_reason: Some(stop_reason),
        native_stop_reason: None,
        metrics: audit::no_metrics(),
        cost_usd_micros: 0,
        atif: match workflow {
            Workflow::Unsigned => Some(
                AtifView {
                    source: Source::Agent,
                    message: JsonTree::Text(reason),
                    reasoning_content: None,
                    model_name: None,
                    tool_calls: None,
                    observation: None,
                    llm_call_count: Some(0),
                },
            ),
            Workflow::Signed => None,
        },
        response_marker: None,
        response_attempt: None,
    }
}

/// The record of a failure that closes an attempt at a response.
pub open spec fn closing_failure(
    workflow: Workflow,
    stop_reason: StopReason,
    reason: Seq<char>,
    marker: Option<Seq<char>>,
    attempt: Seq<char>,
) -> RecordView {
    RecordView {
        response_marker: marker,
        response_attempt: Some((attempt, true)),
        ..failure(workflow, stop_reason, reason)
    }
}

/// The record of a failure.
pub fn failure_record(workflow: Workflow, stop_reason: StopReason, reason: String) -> (record: AuditRecord)
    ensures
        record@ == failure(workflow, stop_reason, reason@),
{
    let atif: Option<AtifCapture> = match workflow {
        Workflow::Unsigned => Some(
            AtifCapture {
                source: Source::Agent,
                message: Json::Text(reason.clone()),
                reasoning_content: None,
                model_name: None,
                tool_calls: None,
                observation: None,
                llm_call_count: Some(0),
            },
        ),
        Workflow::Signed => None,
    };
    AuditRecord {
        class: EventClass::StopReason,
        payload: Payload::Reason { reason },
        text: String::new(),
        analyze_loop: false,
        status: StatusId::Failure,
        stop_reason: Some(stop_reason),
        native_stop_reason: None,
        metrics: EventMetrics {
            prompt_tokens: None,
            completion_tokens: None,
            cached_tokens: None,
            pruned_tokens: None,
            pruning_ratio_millis: None,
        },
        cost_usd_micros: 0,
        atif,
        response_marker: None,
        response_attempt: None,
    }
}

/// The record of a failure that closes an attempt at a response. Every
/// attempt that was opened is closed by one such record or by the record of
/// the response itself.
pub fn closing_failure_record(
    workflow: Workflow,
    stop_reason: StopReason,
    reason: String,
    marker: Option<String>,
    attempt: String,
) -> (record: AuditRecord)
    ensures
        record@ == closing_failure(workflow, stop_reason, reason@, text::opt_text(marker), attempt@),
{
    let mut record = failure_record(workflow, stop_reason, reason);
    record.response_marker = marker;
    record.response_attempt = Some(ResponseAttempt { id: attempt, terminal: true });
    record
}

/// How many bytes of a client's session id are repeated in a record.
pub const MAX_ECHO: usize = 64;

/// The longest front part of a text that is at most [`MAX_ECHO`] bytes long.
pub open spec fn echo(id: Seq<char>) -> Seq<char>
    decreases id.len(),
{
    if id.len() == 0 || text::byte_len(id) <= MAX_ECHO {
        id
    } else {
        echo(id.drop_last())
    }
}

/// The words of a rejection: the session that was asked for, as far as it is
/// repeated, and the reason.
pub open spec fn rejection_words(id: Seq<char>, reason: Seq<char>) -> Seq<char> {
    "requested session "@ + headers::debug_text(echo(id)) + (if echo(id) == id {
        ""@
    } else {
        "…(truncated)"@
    }) + ": "@ + reason
}

/// A longer text has at least as many bytes.
proof fn lemma_byte_len_grows(s: Seq<char>, i: int, j: int)
    requires
        0 <= i <= j <= s.len(),
    ensures
        text::byte_len(s.take(i)) <= text::byte_len(s.take(j)),
    decreases i,
{
    if i > 0 {
        lemma_byte_len_grows(s.drop_first(), i - 1, j - 1);
        assert(s.take(i).drop_first() =~= s.drop_first().take(i - 1));
        assert(s.take(j).drop_first() =~= s.drop_first().take(j - 1));
    }
}

/// A front part that is short enough, where one more character is too much,
/// is the echo.
proof fn lemma_echo(s: Seq<char>, i: int, j: int)
    requires
        0 <= i <= j <= s.len(),
        text::byte_len(s.take(i)) <= MAX_ECHO,
        i < j ==> text::byte_len(s.take(i + 1)) > MAX_ECHO,
    ensures
        echo(s.take(j)) == s.take(i),
    decreases j - i,
{
    if i < j {
        lemma_byte_len_grows(s, i + 1, j);
        assert(s.take(j).drop_last() =~= s.take(j - 1));
        lemma_echo(s, i, j - 1);
    }
}

/// The part of a client's session id that is repeated in a record.
fn session_echo(id: &str) -> (part: String)
    ensures
        part@ == echo(id@),
{
    let chars: Vec<char> = text::chars_of(id);
    let mut part = String::new();
    let mut i: usize = 0;
    proof {
        assert(id@.take(0) =~= Seq::<char>::empty());
        assert(encode_utf8(id@.take(0)).len() == 0);
    }
    while i < chars.len()
        invariant
            chars@ == id@,
            i <= chars@.len(),
            part@ == id@.take(i as int),
            text::byte_len(part@) <= MAX_ECHO,
        decreases chars.len() - i,
    {
        let ghost before = part@;
        let mut longer: String = part.clone();
        longer.push(chars[i]);
        assert(longer@ =~= id@.take(i + 1));
        if text::byte_length(longer.as_str()) > MAX_ECHO {
            proof {
                lemma_echo(id@, i as int, id@.len() as int);
                assert(id@.take(id@.len() as int) =~= id@);
            }
            return part;
        }
        part = longer;
        i += 1;
    }
    proof {
        assert(id@.take(id@.len() as int) =~= id@);
    }
    part
}

/// The record of a request whose identity was rejected. It stands in a
/// session of its own: the session that the request asked for is not its.
pub fn rejection_record(id: &str, stop_reason: StopReason, reason: &str) -> (record: AuditRecord)
    ensures
        record@ == failure(Workflow::Signed, stop_reason, rejection_words(id@, reason@)),
{
    let part: String = session_echo(id);
    let marker: &str = if text::same_text(part.as_str(), id) {
        ""
    } else {
        "…(truncated)"
    };
    let shown: String = text::concat2("requested session ", headers::quoted(part.as_str()).as_str());
    let named: String = text::concat3(shown.as_str(), marker, ": ");
    failure_record(Workflow::Signed, stop_reason, text::concat2(named.as_str(), reason))
}

/// The agent that a rejected request is written down under.
pub open spec fn rejected(audit_session: Seq<char>) -> IdentityView {
    IdentityView {
        version: "unknown"@,
        charter: "identity-rejected"@,
        instance_uid: audit_session,
        ttl_remaining_s: None,
    }
}

/// The name of the session that holds the record of a rejected request, and
/// the agent that it is written down under. `uid` is a fresh event id.
pub fn rejection_session(uid: &str) -> (named: (String, AgentIdentity))
    ensures
        named.0@ == "identity-rejected-"@ + uid@,
        named.1@ == rejected(named.0@),
{
    let name: String = text::concat2("identity-rejected-", uid);
    let identity = AgentIdentity {
        version: "unknown".to_owned(),
        charter: "identity-rejected".to_owned(),
        instance_uid: name.clone(),
        ttl_remaining_s: None,
    };
    (name, identity)
}

/// However long the session id of a rejected request is, no more than
/// [`MAX_ECHO`] bytes of it are repeated, and an id that fits is repeated
/// whole.
pub proof fn law_echo_is_bounded(id: Seq<char>)
    ensures
        text::byte_len(echo(id)) <= MAX_ECHO,
        text::has_prefix(id, echo(id)),
        text::byte_len(id) <= MAX_ECHO ==> echo(id) == id,
    decreases id.len(),
{
    if id.len() == 0 {
        assert(encode_utf8(id).len() == 0);
        assert(id.take(0) =~= id);
    } else if text::byte_len(id) <= MAX_ECHO {
        assert(id.take(id.len() as int) =~= id);
    } else {
        law_echo_is_bounded(id.drop_last());
        let n = echo(id).len() as int;
        assert(id.drop_last().take(n) =~= id.take(n));
    }
}

/// The record of a failure is one: it has the reason for which the work
/// stopped, in words too, and neither tokens nor a cost. In an unsigned
/// session it is a step of the trajectory as well, with the same words and no
/// call of the model; a signed session has none.
pub proof fn law_failures_are_recorded_as_such(workflow: Workflow, stop_reason: StopReason, reason: Seq<char>)
    ensures
        ({
            let record = failure(workflow, stop_reason, reason);
            &&& record.status == StatusId::Failure
            &&& record.stop_reason == Some(stop_reason)
            &&& record.class == EventClass::StopReason
            &&& record.payload == (PayloadView::Reason { reason })
            &&& record.cost_usd_micros == 0 && !record.analyze_loop
            &&& record.metrics.prompt_tokens is None && record.metrics.completion_tokens is None
                && record.metrics.cached_tokens is None
            &&& record.response_attempt is None && record.response_marker is None
            &&& record.atif is Some <==> workflow == Workflow::Unsigned
            &&& record.atif matches Some(step) ==> step.source == Source::Agent && step.message == JsonTree::Text(reason)
                && step.llm_call_count == Some(0u64) && step.tool_calls is None && step.model_name is None
        }),
{
}

/// A failure that ends an attempt at a response closes it, under its own id,
/// and is recorded otherwise like any other.
pub proof fn law_closing_failures_close_their_attempt(
    workflow: Workflow,
    stop_reason: StopReason,
    reason: Seq<char>,
    marker: Option<Seq<char>>,
    attempt: Seq<char>,
)
    ensures
        ({
            let record = closing_failure(workflow, stop_reason, reason, marker, attempt);
            let plain = failure(workflow, stop_reason, reason);
            &&& record.response_attempt == Some((attempt, true))
            &&& record.response_marker == marker
            &&& record.status == plain.status && record.stop_reason == plain.stop_reason && record.payload == plain.payload
            &&& record.atif == plain.atif && record.class == plain.class
        }),
{
}

/// The words of a rejection name the session that was asked for and end with
/// the reason; where the id is cut short, they say so.
pub proof fn law_rejections_tell_the_reason(id: Seq<char>, reason: Seq<char>)
    ensures
        text::has_prefix(rejection_words(id, reason), "requested session "@ + headers::debug_text(echo(id))),
        text::has_suffix(rejection_words(id, reason), ": "@ + reason),
        text::byte_len(id) <= MAX_ECHO ==> rejection_words(id, reason) == "requested session "@ + headers::debug_text(id)
            + ""@ + ": "@ + reason,
        text::byte_len(id) > MAX_ECHO ==> rejection_words(id, reason) == "requested session "@ + headers::debug_text(
            echo(id),
        ) + "…(truncated)"@ + ": "@ + reason,
{
    law_echo_is_bounded(id);
    let words = rejection_words(id, reason);
    let head = "requested session "@ + headers::debug_text(echo(id));
    let tail = ": "@ + reason;
    assert(words.take(head.len() as int) =~= head);
    assert(words.skip(words.len() - tail.len()) =~= tail);
}

/// A rejected request is written down under an agent of its own, which no
/// token can have: it is named for the session that holds the record.
pub proof fn law_rejected_requests_have_an_agent_of_their_own(audit_session: Seq<char>)
    ensures
        rejected(audit_session).charter == "identity-rejected"@,
        rejected(audit_session).instance_uid == audit_session,
        rejected(audit_session).ttl_remaining_s is None,
{
}

} // verus!
