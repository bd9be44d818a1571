//! Documents that a session leaves behind: the bodies of its audit events, and
//! what its trajectory says of it.

use vstd::prelude::*;
use crate::audit::{Payload, PayloadView};
use crate::json;
use crate::json::{Json, JsonTree};
use crate::replay::Totals;
use crate::scan;
use crate::scan::TrajectoryView;
use crate::session;
use crate::session::{AgentIdentity, IdentityView, Workflow};

verus! {

/// A field that holds a text.
pub open spec fn text_field(name: Seq<char>, value: Seq<char>) -> (Seq<char>, JsonTree) {
    (name, JsonTree::Text(value))
}

/// A field that holds a whole number.
pub open spec fn whole_field(name: Seq<char>, value: u64) -> (Seq<char>, JsonTree) {
    (name, json::whole_or_null_tree(Some(value)))
}

/// The fields of the body of an audit event, in the order of their names.
pub open spec fn payload_fields(payload: PayloadView) -> Seq<(Seq<char>, JsonTree)> {
    match payload {
        PayloadView::Reason { reason } => seq![text_field("reason"@, reason)],
        PayloadView::ResponseRefused { reason } => seq![
            text_field("direction"@, "upstream_response"@),
            text_field("reason"@, reason),
        ],
        PayloadView::Response { http_status } => seq![
            text_field("direction"@, "upstream_response"@),
            whole_field("http_status"@, http_status as u64),
        ],
        PayloadView::ResponseFinished { finish_reason, http_status } => seq![
            text_field("direction"@, "upstream_response"@),
            text_field("finish_reason"@, finish_reason),
            whole_field("http_status"@, http_status as u64),
        ],
        PayloadView::Compression { changed, tokens_before, tokens_after } => seq![
            ("changed"@, JsonTree::Bool(changed)),
            whole_field("tokens_after"@, tokens_after),
            whole_field("tokens_before"@, tokens_before),
        ],
        PayloadView::ToolAllowed { tool, budget_remaining, budget_unlimited, decision_us } => seq![
            ("allowed"@, JsonTree::Bool(true)),
            ("budget_remaining"@, json::whole_or_null_tree(budget_remaining)),
            ("budget_unlimited"@, JsonTree::Bool(budget_unlimited)),
            whole_field("decision_us"@, decision_us),
            text_field("tool"@, tool),
        ],
        PayloadView::ToolBlocked { tool, stage, reason, decision_us } => seq![
            ("allowed"@, JsonTree::Bool(false)),
            whole_field("decision_us"@, decision_us),
            text_field("reason"@, reason),
            text_field("stage"@, stage),
            text_field("tool"@, tool),
        ],
        PayloadView::ToolCompleted { execution_key, status, response_sha256 } => seq![
            text_field("action"@, "tool_completed"@),
            text_field("execution_key"@, execution_key),
            text_field("response_sha256"@, response_sha256),
            whole_field("status"@, status as u64),
        ],
    }
}

/// Appends a field to those of an object.
pub(crate) fn put(fields: &mut Vec<(String, Json)>, name: &str, value: Json)
    ensures
        json::field_trees(final(fields)@) == json::field_trees(old(fields)@).push((name@, value@)),
{
    let ghost before = fields@;
    fields.push((name.to_owned(), value));
    assert(json::field_trees(fields@) =~= json::field_trees(before).push((name@, value@)));
}

/// Appends a field that holds a text.
pub(crate) fn put_text(fields: &mut Vec<(String, Json)>, name: &str, value: &str)
    ensures
        json::field_trees(final(fields)@) == json::field_trees(old(fields)@).push(text_field(name@, value@)),
{
    let text = Json::Text(value.to_owned());
    assert(text@ == JsonTree::Text(value@));
    put(fields, name, text);
}

/// Appends a field that holds a truth value.
pub(crate) fn put_bool(fields: &mut Vec<(String, Json)>, name: &str, value: bool)
    ensures
        json::field_trees(final(fields)@) == json::field_trees(old(fields)@).push((name@, JsonTree::Bool(value))),
{
    let truth = Json::Bool(value);
    assert(truth@ == JsonTree::Bool(value));
    put(fields, name, truth);
}

/// The object of these fields.
pub(crate) fn object(fields: Vec<(String, Json)>) -> (document: Json)
    ensures
        document@ == JsonTree::Object(json::field_trees(fields@)),
{
    let document = Json::Object(fields);
    assert(document@->Object_0 =~= json::field_trees(fields@));
    document
}

/// Two names stand in order where they first differ.
proof fn lemma_in_order(a: Seq<char>, b: Seq<char>, k: int)
    requires
        0 <= k < a.len(),
        k < b.len(),
        forall|i: int| 0 <= i < k ==> a[i] == b[i],
        a[k] < b[k],
    ensures
        json::comes_before(a, b),
{
    assert(a.take(k) =~= b.take(k));
}

/// The body of an event that tells a verdict can be built part for part.
pub(crate) proof fn lemma_verdicts_are_plain(payload: PayloadView)
    requires
        payload is ToolAllowed || payload is ToolBlocked,
    ensures
        json::is_plain(JsonTree::Object(payload_fields(payload))),
{
    reveal_strlit("allowed");
    reveal_strlit("budget_remaining");
    reveal_strlit("budget_unlimited");
    reveal_strlit("decision_us");
    reveal_strlit("reason");
    reveal_strlit("stage");
    reveal_strlit("tool");
    let fields = payload_fields(payload);
    if payload is ToolAllowed {
        lemma_in_order("allowed"@, "budget_remaining"@, 0);
        lemma_in_order("budget_remaining"@, "budget_unlimited"@, 7);
        lemma_in_order("budget_unlimited"@, "decision_us"@, 0);
        lemma_in_order("decision_us"@, "tool"@, 0);
    } else {
        lemma_in_order("allowed"@, "decision_us"@, 0);
        lemma_in_order("decision_us"@, "reason"@, 0);
        lemma_in_order("reason"@, "stage"@, 0);
        lemma_in_order("stage"@, "tool"@, 0);
    }
    assert forall|i: int| 0 <= i < fields.len() implies json::is_plain((#[trigger] fields[i]).1) by {}
}

impl Payload {
    /// The body of an audit event as a document.
    pub fn document(&self) -> (document: Json)
        ensures
            document@ == JsonTree::Object(payload_fields(self@)),
    {
        let mut fields: Vec<(String, Json)> = Vec::new();
        assert(json::field_trees(fields@) =~= Seq::empty());
        match self {
            Payload::Reason { reason } => {
                put_text(&mut fields, "reason", reason.as_str());
            },
            Payload::ResponseRefused { reason } => {
                put_text(&mut fields, "direction", "upstream_response");
                put_text(&mut fields, "reason", reason.as_str());
            },
            Payload::Response { http_status } => {
                put_text(&mut fields, "direction", "upstream_response");
                put(&mut fields, "http_status", json::whole(*http_status as u64));
            },
            Payload::ResponseFinished { finish_reason, http_status } => {
                put_text(&mut fields, "direction", "upstream_response");
                put_text(&mut fields, "finish_reason", finish_reason.as_str());
                put(&mut fields, "http_status", json::whole(*http_status as u64));
            },
            Payload::Compression { changed, tokens_before, tokens_after } => {
                put_bool(&mut fields, "changed", *changed);
                put(&mut fields, "tokens_after", json::whole(*tokens_after));
                put(&mut fields, "tokens_before", json::whole(*tokens_before));
            },
            Payload::ToolAllowed { tool, budget_remaining, budget_unlimited, decision_us } => {
                put_bool(&mut fields, "allowed", true);
                put(&mut fields, "budget_remaining", json::whole_or_null(*budget_remaining));
                put_bool(&mut fields, "budget_unlimited", *budget_unlimited);
                put(&mut fields, "decision_us", json::whole(*decision_us));
                put_text(&mut fields, "tool", tool.as_str());
            },
            Payload::ToolBlocked { tool, stage, reason, decision_us } => {
                put_bool(&mut fields, "allowed", false);
                put(&mut fields, "decision_us", json::whole(*decision_us));
                put_text(&mut fields, "reason", reason.as_str());
                put_text(&mut fields, "stage", stage.as_str());
                put_text(&mut fields, "tool", tool.as_str());
            },
            Payload::ToolCompleted { execution_key, status, response_sha256 } => {
                put_text(&mut fields, "action", "tool_completed");
                put_text(&mut fields, "execution_key", execution_key.as_str());
                put_text(&mut fields, "response_sha256", response_sha256.as_str());
                put(&mut fields, "status", json::whole(*status as u64));
            },
        }
        assert(json::field_trees(fields@) =~= payload_fields(self@));
        object(fields)
    }
}

/// What a trajectory says of its agent, beside its version.
pub open spec fn agent_tree(charter: JsonTree, identity: IdentityView) -> JsonTree {
    JsonTree::Object(
        seq![
            ("charter"@, charter),
            text_field("instance_uid"@, identity.instance_uid),
            ("ttl_remaining_s"@, json::whole_or_null_tree(identity.ttl_remaining_s)),
        ],
    )
}

/// What a trajectory says of its agent, beside its version. `charter` is the
/// charter as a document.
pub fn agent_document(charter: Json, identity: &AgentIdentity) -> (document: Json)
    ensures
        document@ == agent_tree(charter@, identity@),
{
    let mut fields: Vec<(String, Json)> = Vec::new();
    assert(json::field_trees(fields@) =~= Seq::empty());
    put(&mut fields, "charter", charter);
    put_text(&mut fields, "instance_uid", identity.instance_uid.as_str());
    put(&mut fields, "ttl_remaining_s", json::whole_or_null(identity.ttl_remaining_s));
    assert(json::field_trees(fields@) =~= agent_tree(charter@, identity@)->Object_0);
    object(fields)
}

/// What stands for an agent in the intent of a tool call: what stays the same
/// while its token is renewed.
pub open spec fn principal_tree(charter: JsonTree, identity: IdentityView) -> JsonTree {
    JsonTree::Object(
        seq![
            ("charter"@, charter),
            text_field("instance_uid"@, identity.instance_uid),
            text_field("version"@, identity.version),
        ],
    )
}

/// What stands for an agent in the intent of a tool call. `charter` is the
/// charter as a document.
pub fn principal_document(charter: Json, identity: &AgentIdentity) -> (document: Json)
    ensures
        document@ == principal_tree(charter@, identity@),
{
    let mut fields: Vec<(String, Json)> = Vec::new();
    assert(json::field_trees(fields@) =~= Seq::empty());
    put(&mut fields, "charter", charter);
    put_text(&mut fields, "instance_uid", identity.instance_uid.as_str());
    put_text(&mut fields, "version", identity.version.as_str());
    assert(json::field_trees(fields@) =~= principal_tree(charter@, identity@)->Object_0);
    object(fields)
}

/// What stands for an agent tells agents apart as the binding of a session
/// does: another version, instance or charter is another agent, another time
/// left is not. A tool call can thus be repeated with a renewed token.
pub proof fn law_renewal_keeps_the_principal(a: IdentityView, b: IdentityView)
    ensures
        principal_tree(JsonTree::Text(a.charter), a) == principal_tree(JsonTree::Text(b.charter), b)
            <==> session::same_agent(a, b),
{
    let x = principal_tree(JsonTree::Text(a.charter), a)->Object_0;
    let y = principal_tree(JsonTree::Text(b.charter), b)->Object_0;
    if x == y {
        assert(x[0] == y[0] && x[1] == y[1] && x[2] == y[2]);
    }
}

/// What a trajectory says at its end of the tools that were called, of the
/// cost and of why the session ended.
pub open spec fn metrics_tree(totals: Totals, stop_reason_id: Option<u64>) -> JsonTree {
    JsonTree::Object(
        seq![
            whole_field("cost_usd_micros"@, totals.cost_usd_micros),
            ("stop_reason_id"@, json::whole_or_null_tree(stop_reason_id)),
            whole_field("tool_allowed"@, totals.tool_allowed),
            whole_field("tool_blocked"@, totals.tool_blocked),
            whole_field("tool_calls"@, totals.tool_calls),
        ],
    )
}

/// What a trajectory says at its end of the tools that were called, of the
/// cost and of why the session ended.
pub fn metrics_document(totals: &Totals, stop_reason_id: Option<u64>) -> (document: Json)
    ensures
        document@ == metrics_tree(*totals, stop_reason_id),
{
    let mut fields: Vec<(String, Json)> = Vec::new();
    assert(json::field_trees(fields@) =~= Seq::empty());
    put(&mut fields, "cost_usd_micros", json::whole(totals.cost_usd_micros));
    put(&mut fields, "stop_reason_id", json::whole_or_null(stop_reason_id));
    put(&mut fields, "tool_allowed", json::whole(totals.tool_allowed));
    put(&mut fields, "tool_blocked", json::whole(totals.tool_blocked));
    put(&mut fields, "tool_calls", json::whole(totals.tool_calls));
    assert(json::field_trees(fields@) =~= metrics_tree(*totals, stop_reason_id)->Object_0);
    object(fields)
}

/// The body of the event that a session was closed.
pub open spec fn closed_tree(workflow: Workflow) -> JsonTree {
    JsonTree::Object(
        seq![
            text_field("action"@, "closed"@),
            text_field("workflow"@, session::workflow_word(workflow)),
        ],
    )
}

/// The body of the event that a session was closed.
pub fn closed_document(workflow: Workflow) -> (document: Json)
    ensures
        document@ == closed_tree(workflow),
{
    let mut fields: Vec<(String, Json)> = Vec::new();
    assert(json::field_trees(fields@) =~= Seq::empty());
    put_text(&mut fields, "action", "closed");
    put_text(&mut fields, "workflow", workflow.as_str());
    assert(json::field_trees(fields@) =~= closed_tree(workflow)->Object_0);
    object(fields)
}

/// The agent that a session was closed for is the agent that it is restored
/// for: what a trajectory says of its agent gives the agent back, whether its
/// charter is read as a charter file or is a plain name.
pub proof fn law_agent_survives_the_artifact(t: TrajectoryView, charter: JsonTree, identity: IdentityView)
    requires
        t.version == identity.version,
        t.extra == Some(agent_tree(charter, identity)),
        t.charter == Some(identity.charter) || (t.charter is None && charter == JsonTree::Text(identity.charter)),
    ensures
        scan::recovered_agent(t) == identity,
{
    reveal_strlit("charter");
    reveal_strlit("instance_uid");
    reveal_strlit("ttl_remaining_s");
    let fields = agent_tree(charter, identity)->Object_0;
    assert(json::field(fields, "charter"@) == Some(charter));
    assert(fields.skip(1)[0] == fields[1]);
    assert("charter"@.len() == 7 && "instance_uid"@.len() == 12 && "ttl_remaining_s"@.len() == 15);
    assert(json::field(fields, "instance_uid"@) == json::field(fields.skip(1), "instance_uid"@));
    assert(json::field(fields.skip(1), "instance_uid"@) == Some(JsonTree::Text(identity.instance_uid)));
    assert(json::field(fields, "ttl_remaining_s"@) == json::field(fields.skip(1), "ttl_remaining_s"@));
    assert(json::field(fields.skip(1), "ttl_remaining_s"@) == json::field(
        fields.skip(1).skip(1),
        "ttl_remaining_s"@,
    ));
    assert(fields.skip(1).skip(1)[0] == fields[2]);
}

/// What a trajectory says at its end tells the counts of its tools, its cost
/// and why the session ended apart: nothing of them is lost.
pub proof fn law_metrics_survive_the_artifact(a: Totals, b: Totals, x: Option<u64>, y: Option<u64>)
    requires
        metrics_tree(a, x) == metrics_tree(b, y),
    ensures
        a.tool_calls == b.tool_calls,
        a.tool_allowed == b.tool_allowed,
        a.tool_blocked == b.tool_blocked,
        a.cost_usd_micros == b.cost_usd_micros,
        x == y,
{
    let p = metrics_tree(a, x)->Object_0;
    let q = metrics_tree(b, y)->Object_0;
    assert(p[0].1 == q[0].1 && p[1].1 == q[1].1 && p[2].1 == q[2].1 && p[3].1 == q[3].1 && p[4].1 == q[4].1);
}

/// Whether a trajectory on disk is the one that a journal gives. The id of a
/// trajectory is drawn when it is made, and does not count.
pub open spec fn same_trajectory(found: JsonTree, rebuilt: JsonTree) -> bool {
    json::without(found, "trajectory_id"@) == json::without(rebuilt, "trajectory_id"@)
}

/// Whether a trajectory on disk is the one that a journal gives.
pub fn same_artifact(found: &Json, rebuilt: &Json) -> (same: bool)
    ensures
        same == same_trajectory(found@, rebuilt@),
{
    found.without("trajectory_id").same(&rebuilt.without("trajectory_id"))
}

/// Whether no two fields have the same name.
spec fn names_differ(fields: Seq<(Seq<char>, JsonTree)>) -> bool {
    forall|i: int, j: int| 0 <= i < j < fields.len() ==> (#[trigger] fields[i]).0 != (#[trigger] fields[j]).0
}

/// Among fields with different names, each is found under its own.
proof fn lemma_field_found(fields: Seq<(Seq<char>, JsonTree)>, i: int)
    requires
        names_differ(fields),
        0 <= i < fields.len(),
    ensures
        json::field(fields, fields[i].0) == Some(fields[i].1),
    decreases fields.len(),
{
    if i > 0 {
        assert(fields[0].0 != fields[i].0);
        let rest = fields.skip(1);
        assert forall|a: int, b: int| 0 <= a < b < rest.len() implies (#[trigger] rest[a]).0 != (#[trigger] rest[b]).0 by {
            assert(rest[a] == fields[a + 1] && rest[b] == fields[b + 1]);
        }
        assert(rest[i - 1] == fields[i]);
        lemma_field_found(rest, i - 1);
    }
}

/// The body of an audit event names what it tells: a reason, the status and
/// the finish reason of a response, the tokens before and after compression.
pub proof fn law_event_bodies_name_their_parts(payload: PayloadView)
    ensures
        ({
            let body = JsonTree::Object(payload_fields(payload));
            match payload {
                PayloadView::Reason { reason } => json::member(body, "reason"@) == Some(JsonTree::Text(reason)),
                PayloadView::ResponseRefused { reason } => json::member(body, "reason"@) == Some(JsonTree::Text(reason))
                    && json::member(body, "direction"@) == Some(JsonTree::Text("upstream_response"@)),
                PayloadView::Response { http_status } => json::unsigned_in(json::member(body, "http_status"@)) == Some(
                    http_status as u64,
                ) && json::member(body, "direction"@) == Some(JsonTree::Text("upstream_response"@)),
                PayloadView::ResponseFinished { finish_reason, http_status } => json::unsigned_in(
                    json::member(body, "http_status"@),
                ) == Some(http_status as u64) && json::member(body, "direction"@) == Some(
                    JsonTree::Text("upstream_response"@),
                ) && json::member(body, "finish_reason"@) == Some(JsonTree::Text(finish_reason)),
                PayloadView::Compression { changed, tokens_before, tokens_after } => json::member(body, "changed"@) == Some(
                    JsonTree::Bool(changed),
                ) && json::unsigned_in(json::member(body, "tokens_before"@)) == Some(tokens_before) && json::unsigned_in(
                    json::member(body, "tokens_after"@),
                ) == Some(tokens_after),
                _ => true,
            }
        }),
{
    reveal_strlit("reason");
    reveal_strlit("direction");
    reveal_strlit("http_status");
    reveal_strlit("finish_reason");
    reveal_strlit("changed");
    reveal_strlit("tokens_before");
    reveal_strlit("tokens_after");
    assert("reason"@.len() == 6 && "direction"@.len() == 9 && "http_status"@.len() == 11 && "finish_reason"@.len() == 13);
    assert("changed"@.len() == 7 && "tokens_before"@.len() == 13 && "tokens_after"@.len() == 12);
    let fields = payload_fields(payload);
    if !(payload is ToolAllowed || payload is ToolBlocked || payload is ToolCompleted) {
        assert(names_differ(fields));
        lemma_field_found(fields, 0);
        if fields.len() > 1 {
            lemma_field_found(fields, 1);
        }
        if fields.len() > 2 {
            lemma_field_found(fields, 2);
        }
    }
}

/// The body of the event of a tool call names the tool, whether it was
/// allowed, and how long the decision took; where it was blocked, at which
/// stage and why; where it was completed, under which key and with which
/// status.
pub proof fn law_tool_event_bodies_name_their_parts(payload: PayloadView)
    ensures
        ({
            let body = JsonTree::Object(payload_fields(payload));
            match payload {
                PayloadView::ToolAllowed { tool, budget_remaining, budget_unlimited, decision_us } => {
                    &&& json::member(body, "allowed"@) == Some(JsonTree::Bool(true))
                    &&& json::member(body, "tool"@) == Some(JsonTree::Text(tool))
                    &&& json::unsigned_in(json::member(body, "decision_us"@)) == Some(decision_us)
                    &&& json::member(body, "budget_unlimited"@) == Some(JsonTree::Bool(budget_unlimited))
                    &&& json::unsigned_in(json::member(body, "budget_remaining"@)) == budget_remaining
                },
                PayloadView::ToolBlocked { tool, stage, reason, decision_us } => {
                    &&& json::member(body, "allowed"@) == Some(JsonTree::Bool(false))
                    &&& json::member(body, "tool"@) == Some(JsonTree::Text(tool))
                    &&& json::unsigned_in(json::member(body, "decision_us"@)) == Some(decision_us)
                    &&& json::member(body, "stage"@) == Some(JsonTree::Text(stage))
                    &&& json::member(body, "reason"@) == Some(JsonTree::Text(reason))
                },
                PayloadView::ToolCompleted { execution_key, status, response_sha256 } => {
                    &&& json::member(body, "action"@) == Some(JsonTree::Text("tool_completed"@))
                    &&& json::member(body, "execution_key"@) == Some(JsonTree::Text(execution_key))
                    &&& json::member(body, "response_sha256"@) == Some(JsonTree::Text(response_sha256))
                    &&& json::unsigned_in(json::member(body, "status"@)) == Some(status as u64)
                },
                _ => true,
            }
        }),
{
    reveal_strlit("allowed");
    reveal_strlit("budget_remaining");
    reveal_strlit("budget_unlimited");
    reveal_strlit("decision_us");
    reveal_strlit("reason");
    reveal_strlit("stage");
    reveal_strlit("tool");
    reveal_strlit("action");
    reveal_strlit("execution_key");
    reveal_strlit("response_sha256");
    reveal_strlit("status");
    assert("allowed"@.len() == 7 && "decision_us"@.len() == 11 && "tool"@.len() == 4 && "stage"@.len() == 5);
    assert("budget_remaining"@[7] == 'r' && "budget_unlimited"@[7] == 'u');
    assert("budget_remaining"@.len() == 16 && "budget_unlimited"@.len() == 16 && "reason"@.len() == 6);
    assert("action"@[0] == 'a' && "execution_key"@[0] == 'e' && "response_sha256"@[0] == 'r' && "status"@[0] == 's');
    let fields = payload_fields(payload);
    if payload is ToolAllowed || payload is ToolBlocked || payload is ToolCompleted {
        assert(names_differ(fields));
        lemma_field_found(fields, 0);
        lemma_field_found(fields, 1);
        lemma_field_found(fields, 2);
        lemma_field_found(fields, 3);
        if fields.len() > 4 {
            lemma_field_found(fields, 4);
        }
    }
}

/// What a trajectory says at its end names each of its counts.
pub proof fn law_metrics_name_their_counts(totals: Totals, stop_reason_id: Option<u64>)
    ensures
        ({
            let body = metrics_tree(totals, stop_reason_id);
            &&& json::unsigned_in(json::member(body, "tool_calls"@)) == Some(totals.tool_calls)
            &&& json::unsigned_in(json::member(body, "tool_allowed"@)) == Some(totals.tool_allowed)
            &&& json::unsigned_in(json::member(body, "tool_blocked"@)) == Some(totals.tool_blocked)
            &&& json::unsigned_in(json::member(body, "cost_usd_micros"@)) == Some(totals.cost_usd_micros)
            &&& json::unsigned_in(json::member(body, "stop_reason_id"@)) == stop_reason_id
        }),
{
    reveal_strlit("cost_usd_micros");
    reveal_strlit("stop_reason_id");
    reveal_strlit("tool_allowed");
    reveal_strlit("tool_blocked");
    reveal_strlit("tool_calls");
    assert("cost_usd_micros"@.len() == 15 && "stop_reason_id"@.len() == 14 && "tool_calls"@.len() == 10);
    assert("tool_allowed"@.len() == 12 && "tool_blocked"@.len() == 12);
    assert("tool_allowed"@[5] == 'a' && "tool_blocked"@[5] == 'b');
    let fields = metrics_tree(totals, stop_reason_id)->Object_0;
    assert(names_differ(fields));
    lemma_field_found(fields, 0);
    lemma_field_found(fields, 1);
    lemma_field_found(fields, 2);
    lemma_field_found(fields, 3);
    lemma_field_found(fields, 4);
}

/// A trajectory on disk is the one of the journal whatever its id is, and
/// not where any other part differs.
pub proof fn law_only_the_id_may_differ(found: JsonTree, rebuilt: JsonTree, key: Seq<char>)
    requires
        same_trajectory(found, rebuilt),
        key != "trajectory_id"@,
        found is Object,
    ensures
        rebuilt is Object,
        json::member(found, key) == json::member(rebuilt, key),
{
    lemma_without_keeps(found->Object_0, "trajectory_id"@, key);
    if rebuilt is Object {
        lemma_without_keeps(rebuilt->Object_0, "trajectory_id"@, key);
    }
}

/// Trajectories that differ in their id alone are the same.
pub proof fn law_the_id_does_not_count(fields: Seq<(Seq<char>, JsonTree)>, a: JsonTree, b: JsonTree)
    ensures
        same_trajectory(
            JsonTree::Object(fields.push(("trajectory_id"@, a))),
            JsonTree::Object(fields.push(("trajectory_id"@, b))),
        ),
{
    assert(fields.push(("trajectory_id"@, a)).drop_last() =~= fields);
    assert(fields.push(("trajectory_id"@, b)).drop_last() =~= fields);
}

/// What is found among fields with one more.
proof fn lemma_field_push(fields: Seq<(Seq<char>, JsonTree)>, more: (Seq<char>, JsonTree), key: Seq<char>)
    ensures
        json::field(fields.push(more), key) == (if json::field(fields, key) is Some {
            json::field(fields, key)
        } else if more.0 == key {
            Some(more.1)
        } else {
            None
        }),
    decreases fields.len(),
{
    let all = fields.push(more);
    if fields.len() == 0 {
        assert(all[0] == more);
        assert(all.skip(1) =~= Seq::empty());
        assert(json::field(all.skip(1), key) is None);
    } else if fields[0].0 == key {
        assert(all[0] == fields[0]);
    } else {
        assert(all[0] == fields[0]);
        assert(all.skip(1) =~= fields.skip(1).push(more));
        lemma_field_push(fields.skip(1), more, key);
    }
}

/// Taking the fields of one name out leaves what is found under others.
proof fn lemma_without_keeps(fields: Seq<(Seq<char>, JsonTree)>, name: Seq<char>, key: Seq<char>)
    requires
        key != name,
    ensures
        json::field(json::fields_without(fields, name), key) == json::field(fields, key),
    decreases fields.len(),
{
    if fields.len() > 0 {
        lemma_without_keeps(fields.drop_last(), name, key);
        assert(fields.drop_last().push(fields.last()) =~= fields);
        lemma_field_push(fields.drop_last(), fields.last(), key);
        lemma_field_push(json::fields_without(fields.drop_last(), name), fields.last(), key);
    }
}

/// An agent is named by its charter, its instance and its version, each under
/// its own name; the end of a session is told as such.
pub proof fn law_agents_and_ends_are_named(charter: JsonTree, identity: IdentityView, workflow: Workflow)
    ensures
        json::member(principal_tree(charter, identity), "charter"@) == Some(charter),
        json::member(principal_tree(charter, identity), "instance_uid"@) == Some(JsonTree::Text(identity.instance_uid)),
        json::member(principal_tree(charter, identity), "version"@) == Some(JsonTree::Text(identity.version)),
        json::member(closed_tree(workflow), "action"@) == Some(JsonTree::Text("closed"@)),
        json::member(closed_tree(workflow), "workflow"@) == Some(
            JsonTree::Text(
                match workflow {
                    Workflow::Signed => "signed"@,
                    Workflow::Unsigned => "unsigned"@,
                },
            ),
        ),
{
    reveal_strlit("charter");
    reveal_strlit("instance_uid");
    reveal_strlit("version");
    reveal_strlit("action");
    reveal_strlit("workflow");
    reveal_with_fuel(json::field, 4);
    assert("charter"@[0] == 'c' && "instance_uid"@[0] == 'i' && "version"@[0] == 'v');
    assert("action"@[0] == 'a' && "workflow"@[0] == 'w');
}

} // verus!
