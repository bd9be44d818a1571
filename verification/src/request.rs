//! Chat requests: what a request body says, and the message that is added to
//! one that goes round in circles.

use vstd::prelude::*;
use crate::audit;
use crate::audit::{AtifCapture, AtifToolCall, AtifToolCallView, AtifView, Observation, ObservationView, Source};
use crate::errors;
use crate::errors::PipelineError;
use crate::headers;
use crate::json;
use crate::json::{Json, JsonTree};
use crate::text;

verus! {

/// The name of the type of a JSON value.
pub open spec fn kind_name(tree: JsonTree) -> Seq<char> {
    match tree {
        JsonTree::Null => "null"@,
        JsonTree::Bool(_) => "boolean"@,
        JsonTree::Number(_) => "number"@,
        JsonTree::Text(_) => "string"@,
        JsonTree::List(_) => "array"@,
        JsonTree::Object(_) => "object"@,
    }
}

/// The name of the type of a JSON value.
pub fn json_type_name(value: &Json) -> (name: &'static str)
    ensures
        name@ == kind_name(value@),
{
    match value {
        Json::Null => "null",
        Json::Bool(_) => "boolean",
        Json::Number(_) => "number",
        Json::Text(_) => "string",
        Json::List(_) => "array",
        Json::Object(_) => "object",
    }
}

/// The last message of a request, where it has any.
pub open spec fn last_message(payload: JsonTree) -> Option<JsonTree> {
    match json::items_in(json::member(payload, "messages"@)) {
        Some(messages) => if messages.len() > 0 {
            Some(messages.last())
        } else {
            None
        },
        None => None,
    }
}

/// The text of the last message of a request; empty where it is no text.
pub open spec fn last_text(payload: JsonTree) -> Seq<char> {
    let content = match last_message(payload) {
        Some(message) => json::text_in(json::member(message, "content"@)),
        None => None,
    };
    match content {
        Some(s) => s,
        None => Seq::empty(),
    }
}

/// The last message of a request.
fn find_last_message(payload: &Json) -> (message: Option<&Json>)
    ensures
        json::tree_at(message) == last_message(payload@),
{
    match json::as_list(payload.get("messages")) {
        Some(messages) => {
            if messages.len() > 0 {
                let last: &Json = &messages[messages.len() - 1];
                assert(json::trees(messages@).last() == last@);
                Some(last)
            } else {
                None
            }
        },
        None => None,
    }
}

/// The text of the last message of a request.
pub fn last_message_text(payload: &Json) -> (s: String)
    ensures
        s@ == last_text(payload@),
{
    let content: Option<String> = match find_last_message(payload) {
        Some(message) => json::as_text(message.get("content")),
        None => None,
    };
    match content {
        Some(s) => s,
        None => String::new(),
    }
}

/// Who speaks in a message of this role.
pub open spec fn source_of(role: Seq<char>) -> Option<Source> {
    if role == "system"@ || role == "developer"@ || role == "tool"@ {
        Some(Source::System)
    } else if role == "user"@ {
        Some(Source::User)
    } else if role == "assistant"@ {
        Some(Source::Agent)
    } else {
        None
    }
}

/// The content of a message: a text or a list of parts, else an empty text.
pub open spec fn content_of(message: JsonTree) -> JsonTree {
    match json::member(message, "content"@) {
        Some(JsonTree::Text(s)) => JsonTree::Text(s),
        Some(JsonTree::List(parts)) => JsonTree::List(parts),
        _ => JsonTree::Text(Seq::empty()),
    }
}

/// The arguments of a function of a message: a text that spells a document
/// stands for that document, and none for an empty object.
pub open spec fn call_arguments(function: JsonTree) -> JsonTree {
    match json::member(function, "arguments"@) {
        None => JsonTree::Object(Seq::empty()),
        Some(JsonTree::Text(raw)) => match json::json_document(raw) {
            Ok(tree) => tree,
            Err(_) => JsonTree::Text(raw),
        },
        Some(other) => other,
    }
}

/// A tool call of a message; none without a function that has a name.
pub open spec fn message_call(call: JsonTree) -> Option<AtifToolCallView> {
    match json::member(call, "function"@) {
        None => None,
        Some(function) => match json::text_in(json::member(function, "name"@)) {
            None => None,
            Some(name) => Some(
                AtifToolCallView {
                    tool_call_id: json::text_in(json::member(call, "id"@)),
                    function_name: name,
                    arguments: call_arguments(function),
                },
            ),
        },
    }
}

/// The tool calls of a message, in order, without the malformed ones.
pub open spec fn message_calls(calls: Seq<JsonTree>) -> Seq<AtifToolCallView>
    decreases calls.len(),
{
    if calls.len() == 0 {
        Seq::empty()
    } else {
        let before = message_calls(calls.drop_last());
        match message_call(calls.last()) {
            Some(call) => before.push(call),
            None => before,
        }
    }
}

/// The trajectory step that a message of a known source makes.
pub open spec fn step_of(payload: JsonTree, message: JsonTree, role: Seq<char>, source: Source) -> AtifView {
    let agent = source == Source::Agent;
    AtifView {
        source,
        message: content_of(message),
        reasoning_content: if agent {
            json::text_in(json::member(message, "reasoning_content"@))
        } else {
            None
        },
        model_name: if agent {
            json::text_in(json::member(payload, "model"@))
        } else {
            None
        },
        tool_calls: match json::items_in(json::member(message, "tool_calls"@)) {
            Some(calls) => if agent {
                Some(message_calls(calls))
            } else {
                None
            },
            None => None,
        },
        observation: if role == "tool"@ {
            Some(
                ObservationView {
                    source_call_id: None,
                    content: Some(content_of(message)),
                    tool_call_id: json::member(message, "tool_call_id"@),
                },
            )
        } else {
            None
        },
        llm_call_count: if agent {
            Some(1)
        } else {
            None
        },
    }
}

/// The trajectory step that a request makes: that of its last message.
pub open spec fn request_step(payload: JsonTree) -> Result<AtifView, errors::ErrorView> {
    match json::member(payload, "messages"@) {
        None => Err(errors::bad_request("chat payload is missing 'messages'"@)),
        Some(JsonTree::List(messages)) => if messages.len() == 0 {
            Err(errors::bad_request("chat payload 'messages' is empty"@))
        } else {
            match json::text_in(json::member(messages.last(), "role"@)) {
                None => Err(errors::bad_request("chat message has no role"@)),
                Some(role) => match source_of(role) {
                    None => Err(errors::bad_request("unsupported chat role "@ + headers::debug_text(role))),
                    Some(source) => Ok(step_of(payload, messages.last(), role, source)),
                },
            }
        },
        Some(other) => Err(errors::bad_request("'messages' must be a JSON array, got "@ + kind_name(other))),
    }
}

/// Who speaks in a message of this role.
fn read_source(role: &str) -> (source: Option<Source>)
    ensures
        source == source_of(role@),
{
    if text::same_text(role, "system") || text::same_text(role, "developer") || text::same_text(role, "tool") {
        Some(Source::System)
    } else if text::same_text(role, "user") {
        Some(Source::User)
    } else if text::same_text(role, "assistant") {
        Some(Source::Agent)
    } else {
        None
    }
}

/// The content of a message.
fn read_content(message: &Json) -> (content: Json)
    ensures
        content@ == content_of(message@),
{
    match message.get("content") {
        Some(Json::Text(s)) => Json::Text(s.clone()),
        Some(Json::List(parts)) => {
            let found: &Json = message.get("content").unwrap();
            found.copy()
        },
        _ => {
            let empty = Json::Text(String::new());
            assert(empty@ == JsonTree::Text(Seq::empty()));
            empty
        },
    }
}

/// The arguments of a function of a message.
fn read_arguments(function: &Json) -> (arguments: Json)
    ensures
        arguments@ == call_arguments(function@),
{
    match function.get("arguments") {
        None => {
            let empty = Json::Object(Vec::new());
            assert(empty@->Object_0 =~= Seq::empty());
            empty
        },
        Some(given) => match given {
            Json::Text(raw) => match json::parse_json(raw.as_str()) {
                Ok(document) => document,
                Err(_) => Json::Text(raw.clone()),
            },
            _ => given.copy(),
        },
    }
}

/// A tool call of a message.
fn read_call(call: &Json) -> (read: Option<AtifToolCall>)
    ensures
        match read {
            Some(c) => message_call(call@) == Some(c@),
            None => message_call(call@) is None,
        },
{
    match call.get("function") {
        None => None,
        Some(function) => match json::as_text(function.get("name")) {
            None => None,
            Some(function_name) => Some(
                AtifToolCall {
                    tool_call_id: json::as_text(call.get("id")),
                    function_name,
                    arguments: read_arguments(function),
                },
            ),
        },
    }
}

/// The tool calls of a message.
fn read_calls(calls: &Vec<Json>) -> (read: Vec<AtifToolCall>)
    ensures
        audit::atif_calls(read@) == message_calls(json::trees(calls@)),
{
    let ghost items = json::trees(calls@);
    let mut read: Vec<AtifToolCall> = Vec::new();
    let mut i: usize = 0;
    assert(audit::atif_calls(read@) =~= message_calls(items.take(0)));
    while i < calls.len()
        invariant
            i <= calls@.len(),
            items == json::trees(calls@),
            audit::atif_calls(read@) == message_calls(items.take(i as int)),
        decreases calls.len() - i,
    {
        proof {
            assert(items.take(i + 1).drop_last() =~= items.take(i as int));
            assert(items.take(i + 1).last() == calls@[i as int]@);
        }
        let ghost before = read@;
        if let Some(call) = read_call(&calls[i]) {
            read.push(call);
            assert(audit::atif_calls(read@) =~= audit::atif_calls(before).push(call@));
        }
        i += 1;
    }
    assert(items.take(i as int) =~= items);
    read
}

/// The trajectory step that a request makes.
pub fn atif_capture_from_request(payload: &Json) -> (step: Result<AtifCapture, PipelineError>)
    ensures
        match step {
            Ok(s) => request_step(payload@) == Ok::<AtifView, errors::ErrorView>(s@),
            Err(e) => request_step(payload@) == Err::<AtifView, errors::ErrorView>(e@),
        },
{
    let listed: &Json = match payload.get("messages") {
        Some(listed) => listed,
        None => {
            return Err(PipelineError::BadRequest("chat payload is missing 'messages'".to_owned()));
        },
    };
    if json::as_list(Some(listed)).is_none() {
        return Err(
            PipelineError::BadRequest(
                text::concat2("'messages' must be a JSON array, got ", json_type_name(listed)),
            ),
        );
    }
    let message: &Json = match find_last_message(payload) {
        Some(message) => message,
        None => {
            return Err(PipelineError::BadRequest("chat payload 'messages' is empty".to_owned()));
        },
    };
    let role: String = match json::as_text(message.get("role")) {
        Some(role) => role,
        None => {
            return Err(PipelineError::BadRequest("chat message has no role".to_owned()));
        },
    };
    let source: Source = match read_source(role.as_str()) {
        Some(source) => source,
        None => {
            return Err(
                PipelineError::BadRequest(
                    text::concat2("unsupported chat role ", headers::quoted(role.as_str()).as_str()),
                ),
            );
        },
    };
    let agent: bool = source == Source::Agent;
    let tool_calls: Option<Vec<AtifToolCall>> = if agent {
        match json::as_list(message.get("tool_calls")) {
            Some(calls) => Some(read_calls(calls)),
            None => None,
        }
    } else {
        None
    };
    let observation: Option<Observation> = if text::same_text(role.as_str(), "tool") {
        let tool_call_id: Option<Json> = match message.get("tool_call_id") {
            Some(id) => Some(id.copy()),
            None => None,
        };
        Some(Observation { source_call_id: None, content: Some(read_content(message)), tool_call_id })
    } else {
        None
    };
    let reasoning_content: Option<String> = if agent {
        json::as_text(message.get("reasoning_content"))
    } else {
        None
    };
    let model_name: Option<String> = if agent {
        json::as_text(payload.get("model"))
    } else {
        None
    };
    Ok(
        AtifCapture {
            source,
            message: read_content(message),
            reasoning_content,
            model_name,
            tool_calls,
            observation,
            llm_call_count: if agent {
                Some(1)
            } else {
                None
            },
        },
    )
}

/// The message that is added to a request that goes round in circles.
pub open spec fn corrective_message() -> JsonTree {
    JsonTree::Object(
        seq![
            ("role"@, JsonTree::Text("system"@)),
            (
                "content"@,
                JsonTree::Text(
                    "AgentBridge detected a semantic loop. Stop repeating the previous approach, identify new evidence, and choose a materially different next action."@,
                ),
            ),
        ],
    )
}

/// Where the first field called `key` stands; the number of fields, where
/// there is none.
pub open spec fn field_position(fields: Seq<(Seq<char>, JsonTree)>, key: Seq<char>) -> int
    decreases fields.len(),
{
    if fields.len() == 0 || fields[0].0 == key {
        0
    } else {
        1 + field_position(fields.skip(1), key)
    }
}

/// A request with the corrective message behind its last one.
pub open spec fn corrected(payload: JsonTree) -> Result<JsonTree, errors::ErrorView> {
    match (payload, json::items_in(json::member(payload, "messages"@))) {
        (JsonTree::Object(fields), Some(messages)) => Ok(
            JsonTree::Object(
                fields.update(
                    field_position(fields, "messages"@),
                    ("messages"@, JsonTree::List(messages.push(corrective_message()))),
                ),
            ),
        ),
        _ => Err(errors::bad_request("chat payload has no messages array"@)),
    }
}

/// The field of a key stands at its position.
proof fn lemma_field_position(fields: Seq<(Seq<char>, JsonTree)>, key: Seq<char>)
    ensures
        0 <= field_position(fields, key) <= fields.len(),
        json::field(fields, key) is None <==> field_position(fields, key) == fields.len(),
        field_position(fields, key) < fields.len() ==> json::field(fields, key) == Some(
            fields[field_position(fields, key)].1,
        ) && fields[field_position(fields, key)].0 == key,
    decreases fields.len(),
{
    if fields.len() > 0 && fields[0].0 != key {
        lemma_field_position(fields.skip(1), key);
    }
}

/// The corrective message as a document.
fn make_corrective_message() -> (message: Json)
    ensures
        message@ == corrective_message(),
{
    let role = Json::Text("system".to_owned());
    let content = Json::Text(
        "AgentBridge detected a semantic loop. Stop repeating the previous approach, identify new evidence, and choose a materially different next action.".to_owned(),
    );
    proof {
        assert(role@ == JsonTree::Text("system"@));
        assert(content@ == corrective_message()->Object_0[1].1);
    }
    let mut fields: Vec<(String, Json)> = Vec::new();
    fields.push(("role".to_owned(), role));
    fields.push(("content".to_owned(), content));
    let message = Json::Object(fields);
    assert(message@->Object_0 =~= corrective_message()->Object_0);
    message
}

/// Adds the corrective message to a request.
pub fn inject_corrective_message(payload: Json) -> (injected: Result<Json, PipelineError>)
    ensures
        match injected {
            Ok(p) => corrected(payload@) == Ok::<JsonTree, errors::ErrorView>(p@),
            Err(e) => corrected(payload@) == Err::<JsonTree, errors::ErrorView>(e@),
        },
{
    let ghost before = payload@;
    match payload {
        Json::Object(fields) => {
            let ghost all = before->Object_0;
            let mut fields: Vec<(String, Json)> = fields;
            proof {
                lemma_field_position(all, "messages"@);
                assert(all.len() == fields@.len());
                assert(all.skip(0) =~= all);
            }
            let mut i: usize = 0;
            while i < fields.len() && !text::same_text(fields[i].0.as_str(), "messages")
                invariant
                    i <= fields@.len(),
                    all.len() == fields@.len(),
                    before == JsonTree::Object(all),
                    forall|k: int|
                        0 <= k < all.len() ==> #[trigger] all[k] == (fields@[k].0@, fields@[k].1@),
                    field_position(all, "messages"@) == i + field_position(all.skip(i as int), "messages"@),
                decreases fields.len() - i,
            {
                proof {
                    assert(all.skip(i as int)[0] == all[i as int]);
                    assert(all.skip(i as int).skip(1) =~= all.skip(i + 1));
                }
                i += 1;
            }
            proof {
                if i < all.len() {
                    assert(all.skip(i as int)[0] == all[i as int]);
                }
                assert(i == field_position(all, "messages"@));
            }
            if i == fields.len() {
                return Err(PipelineError::BadRequest("chat payload has no messages array".to_owned()));
            }
            let ghost held = fields@;
            let (key, value) = fields.remove(i);
            match value {
                Json::List(messages) => {
                    let ghost listed = messages@;
                    let mut messages: Vec<Json> = messages;
                    messages.push(make_corrective_message());
                    let list = Json::List(messages);
                    proof {
                        let old_list = Json::List(held[i as int].1->List_0);
                        assert(held[i as int].1@ == all[i as int].1);
                        assert(held[i as int].1@->List_0 =~= json::trees(listed));
                        assert(list@->List_0 =~= json::trees(listed).push(corrective_message()));
                    }
                    fields.insert(i, (key, list));
                    let out = Json::Object(fields);
                    proof {
                        assert(key@ == "messages"@);
                        assert(fields@ =~= held.update(i as int, (key, list)));
                        assert(out@->Object_0 =~= corrected(before)->Ok_0->Object_0);
                    }
                    Ok(out)
                },
                _ => Err(PipelineError::BadRequest("chat payload has no messages array".to_owned())),
            }
        },
        _ => Err(PipelineError::BadRequest("chat payload has no messages array".to_owned())),
    }
}

/// The correction adds one message at the end and leaves the others, and
/// every other part of the request, as they are.
pub proof fn law_correction_only_adds(payload: JsonTree, key: Seq<char>)
    requires
        corrected(payload) is Ok,
    ensures
        ({
            let after = corrected(payload)->Ok_0;
            &&& json::items_in(json::member(after, "messages"@)) == Some(
                json::items_in(json::member(payload, "messages"@))->0.push(corrective_message()),
            )
            &&& key != "messages"@ ==> json::member(after, key) == json::member(payload, key)
        }),
{
    let fields = payload->Object_0;
    let p = field_position(fields, "messages"@);
    lemma_field_position(fields, "messages"@);
    let value = corrected(payload)->Ok_0->Object_0[p].1;
    lemma_field_update(fields, p, "messages"@, value, "messages"@);
    lemma_field_update(fields, p, "messages"@, value, key);
}

/// Replacing the value of a first field changes what is found under its key
/// and under no other.
proof fn lemma_field_update(
    fields: Seq<(Seq<char>, JsonTree)>,
    p: int,
    key: Seq<char>,
    value: JsonTree,
    other: Seq<char>,
)
    requires
        p == field_position(fields, key),
        p < fields.len(),
    ensures
        json::field(fields.update(p, (key, value)), key) == Some(value),
        other != key ==> json::field(fields.update(p, (key, value)), other) == json::field(fields, other),
    decreases fields.len(),
{
    lemma_field_position(fields, key);
    let after = fields.update(p, (key, value));
    if p == 0 {
        assert(after.skip(1) =~= fields.skip(1));
    } else {
        assert(after.skip(1) =~= fields.skip(1).update(p - 1, (key, value)));
        lemma_field_update(fields.skip(1), p - 1, key, value, other);
    }
}

/// The last message of a request decides who speaks in the step that is
/// recorded. A user's message is a step of the user: no model, no tool calls,
/// no reasoning and no call of the model goes with it.
pub proof fn law_user_messages_are_steps_of_the_user(payload: JsonTree, messages: Seq<JsonTree>)
    requires
        json::member(payload, "messages"@) == Some(JsonTree::List(messages)),
        messages.len() > 0,
        json::member(messages.last(), "role"@) == Some(JsonTree::Text("user"@)),
    ensures
        request_step(payload) matches Ok(step) && {
            &&& step.source == Source::User
            &&& step.model_name is None
            &&& step.tool_calls is None
            &&& step.reasoning_content is None
            &&& step.observation is None
            &&& step.llm_call_count is None
        },
{
    lemma_roles_differ();
}

/// An assistant's message is a step of the agent: with the model that the
/// request names, the reasoning and the tool calls of the message, and one
/// call of the model.
pub proof fn law_assistant_messages_are_steps_of_the_agent(payload: JsonTree, messages: Seq<JsonTree>)
    requires
        json::member(payload, "messages"@) == Some(JsonTree::List(messages)),
        messages.len() > 0,
        json::member(messages.last(), "role"@) == Some(JsonTree::Text("assistant"@)),
    ensures
        request_step(payload) matches Ok(step) && {
            &&& step.source == Source::Agent
            &&& match json::member(payload, "model"@) {
                Some(JsonTree::Text(model)) => step.model_name == Some(model),
                _ => step.model_name is None,
            }
            &&& match json::member(messages.last(), "reasoning_content"@) {
                Some(JsonTree::Text(reasoning)) => step.reasoning_content == Some(reasoning),
                _ => step.reasoning_content is None,
            }
            &&& match json::member(messages.last(), "tool_calls"@) {
                Some(JsonTree::List(calls)) => step.tool_calls is Some && step.tool_calls->0.len() <= calls.len(),
                _ => step.tool_calls is None,
            }
            &&& step.observation is None
            &&& step.llm_call_count == Some(1u64)
        },
{
    lemma_roles_differ();
    if let Some(JsonTree::List(calls)) = json::member(messages.last(), "tool_calls"@) {
        lemma_no_call_is_made_up(calls);
    }
}

/// A message of the system, of the developer or of a tool is a step of the
/// system, without a model and without tool calls; only a tool's message is
/// an observation, of the call that it names.
pub proof fn law_other_messages_are_steps_of_the_system(payload: JsonTree, messages: Seq<JsonTree>)
    requires
        json::member(payload, "messages"@) == Some(JsonTree::List(messages)),
        messages.len() > 0,
        json::member(messages.last(), "role"@) matches Some(JsonTree::Text(role)) && (role == "system"@ || role
            == "developer"@ || role == "tool"@),
    ensures
        request_step(payload) matches Ok(step) && {
            &&& step.source == Source::System
            &&& step.model_name is None
            &&& step.tool_calls is None
            &&& step.reasoning_content is None
            &&& step.llm_call_count is None
            &&& step.observation is Some <==> json::member(messages.last(), "role"@) == Some(JsonTree::Text("tool"@))
            &&& step.observation matches Some(seen) ==> {
                &&& seen.tool_call_id == json::member(messages.last(), "tool_call_id"@)
                &&& seen.source_call_id is None
                &&& seen.content == Some(step.message)
            }
        },
{
    lemma_roles_differ();
}

/// Whoever speaks, the step holds the content of the message, where that is
/// a text or a list of parts, and else an empty text.
pub proof fn law_steps_hold_the_content(payload: JsonTree, messages: Seq<JsonTree>)
    requires
        json::member(payload, "messages"@) == Some(JsonTree::List(messages)),
        request_step(payload) is Ok,
    ensures
        messages.len() > 0,
        match json::member(messages.last(), "content"@) {
            Some(JsonTree::Text(words)) => request_step(payload)->Ok_0.message == JsonTree::Text(words),
            Some(JsonTree::List(parts)) => request_step(payload)->Ok_0.message == JsonTree::List(parts),
            _ => request_step(payload)->Ok_0.message == JsonTree::Text(Seq::empty()),
        },
        match json::member(messages.last(), "content"@) {
            Some(JsonTree::Text(words)) => last_text(payload) == words,
            _ => last_text(payload) == Seq::<char>::empty(),
        },
{
}

/// A request makes a step exactly where its last message has one of the five
/// roles; every other request is a bad one.
pub proof fn law_only_known_roles_make_steps(payload: JsonTree)
    ensures
        request_step(payload) is Ok <==> (json::member(payload, "messages"@) matches Some(JsonTree::List(messages))
            && messages.len() > 0 && (json::member(messages.last(), "role"@) matches Some(JsonTree::Text(role)) && (role
            == "system"@ || role == "developer"@ || role == "tool"@ || role == "user"@ || role == "assistant"@))),
        request_step(payload) matches Err(e) ==> e.kind == errors::ErrorKind::BadRequest,
{
}

/// The five roles are five texts.
pub(crate) proof fn lemma_roles_differ()
    ensures
        "user"@ != "assistant"@,
        "user"@ != "system"@,
        "user"@ != "developer"@,
        "user"@ != "tool"@,
        "assistant"@ != "system"@,
        "assistant"@ != "developer"@,
        "assistant"@ != "tool"@,
        "system"@ != "tool"@,
        "developer"@ != "tool"@,
{
    reveal_strlit("user");
    reveal_strlit("assistant");
    reveal_strlit("system");
    reveal_strlit("developer");
    reveal_strlit("tool");
    assert("user"@[0] == 'u');
    assert("assistant"@[0] == 'a');
    assert("system"@[0] == 's');
    assert("developer"@[0] == 'd');
    assert("tool"@[0] == 't');
}

/// There are no more tool calls than entries of a message.
proof fn lemma_no_call_is_made_up(calls: Seq<JsonTree>)
    ensures
        message_calls(calls).len() <= calls.len(),
    decreases calls.len(),
{
    if calls.len() > 0 {
        lemma_no_call_is_made_up(calls.drop_last());
    }
}

/// Where every entry of a message is a tool call, with a function that has a
/// name, each is recorded in its place: with the name, the id and the
/// arguments that it has, and an empty object where it has none.
pub proof fn law_tool_calls_are_recorded_in_place(calls: Seq<JsonTree>)
    requires
        forall|i: int|
            0 <= i < calls.len() ==> (json::member(#[trigger] calls[i], "function"@) matches Some(function)
                && json::member(function, "name"@) is Some && json::member(function, "name"@)->0 is Text),
    ensures
        message_calls(calls).len() == calls.len(),
        forall|i: int|
            0 <= i < calls.len() ==> {
                let function = json::member(calls[i], "function"@)->0;
                let noted = #[trigger] message_calls(calls)[i];
                &&& JsonTree::Text(noted.function_name) == json::member(function, "name"@)->0
                &&& match json::member(calls[i], "id"@) {
                    Some(JsonTree::Text(id)) => noted.tool_call_id == Some(id),
                    _ => noted.tool_call_id is None,
                }
                &&& match json::member(function, "arguments"@) {
                    None => noted.arguments == JsonTree::Object(Seq::empty()),
                    Some(JsonTree::Text(raw)) => match json::json_document(raw) {
                        Ok(document) => noted.arguments == document,
                        Err(_) => noted.arguments == JsonTree::Text(raw),
                    },
                    Some(given) => noted.arguments == given,
                }
            },
    decreases calls.len(),
{
    if calls.len() > 0 {
        let earlier = calls.drop_last();
        assert forall|i: int| 0 <= i < earlier.len() implies (json::member(#[trigger] earlier[i], "function"@) matches Some(
            function,
        ) && json::member(function, "name"@) is Some && json::member(function, "name"@)->0 is Text) by {
            assert(earlier[i] == calls[i]);
        }
        law_tool_calls_are_recorded_in_place(earlier);
        assert(calls[calls.len() - 1] == calls.last());
        assert forall|i: int| 0 <= i < earlier.len() implies #[trigger] message_calls(calls)[i] == message_calls(earlier)[i]
            && calls[i] == earlier[i] by {}
    }
}

/// The message that is added to a request that goes round in circles is one
/// of the system, and the request is refused only where it has no messages.
pub proof fn law_corrections_speak_for_the_system(payload: JsonTree)
    ensures
        corrected(payload) is Ok <==> (payload is Object && (json::member(payload, "messages"@) matches Some(
            JsonTree::List(_),
        ))),
        corrected(payload) matches Err(e) ==> e.kind == errors::ErrorKind::BadRequest,
        json::member(corrective_message(), "role"@) == Some(JsonTree::Text("system"@)),
        json::member(corrective_message(), "content"@) matches Some(JsonTree::Text(_)),
{
    reveal_strlit("role");
    reveal_strlit("content");
    assert("role"@.len() == 4 && "content"@.len() == 7);
    let fields = corrective_message()->Object_0;
    assert(fields.skip(1)[0] == fields[1]);
    reveal_with_fuel(json::field, 3);
}

/// A request without a list of messages, or whose last message has no role
/// that is known, is refused for that.
pub proof fn law_refused_messages_are_told_why(payload: JsonTree, messages: Seq<JsonTree>, role: Seq<char>)
    ensures
        json::member(payload, "messages"@) is None ==> request_step(payload) == Err::<AtifView, errors::ErrorView>(
            errors::bad_request("chat payload is missing 'messages'"@),
        ),
        json::member(payload, "messages"@) == Some(JsonTree::List(Seq::empty())) ==> request_step(payload) == Err::<
            AtifView,
            errors::ErrorView,
        >(errors::bad_request("chat payload 'messages' is empty"@)),
        json::member(payload, "messages"@) == Some(JsonTree::List(messages)) && messages.len() > 0 && json::member(
            messages.last(),
            "role"@,
        ) is None ==> request_step(payload) == Err::<AtifView, errors::ErrorView>(
            errors::bad_request("chat message has no role"@),
        ),
        json::member(payload, "messages"@) == Some(JsonTree::List(messages)) && messages.len() > 0 && json::member(
            messages.last(),
            "role"@,
        ) == Some(JsonTree::Text(role)) && source_of(role) is None ==> request_step(payload) == Err::<
            AtifView,
            errors::ErrorView,
        >(errors::bad_request("unsupported chat role "@ + headers::debug_text(role))),
        json::member(payload, "messages"@) == Some(JsonTree::Null) ==> request_step(payload) == Err::<
            AtifView,
            errors::ErrorView,
        >(errors::bad_request("'messages' must be a JSON array, got "@ + "null"@)),
        json::member(payload, "messages"@) == Some(JsonTree::Text(role)) ==> request_step(payload) == Err::<
            AtifView,
            errors::ErrorView,
        >(errors::bad_request("'messages' must be a JSON array, got "@ + "string"@)),
        json::member(payload, "messages"@) is None ==> corrected(payload) == Err::<JsonTree, errors::ErrorView>(
            errors::bad_request("chat payload has no messages array"@),
        ),
{
}

/// What is no list of messages is called by its kind.
pub proof fn law_kinds_have_names(tree: JsonTree)
    ensures
        tree is Null <==> kind_name(tree) == "null"@,
        tree is Bool <==> kind_name(tree) == "boolean"@,
        tree is Number <==> kind_name(tree) == "number"@,
        tree is Text <==> kind_name(tree) == "string"@,
        tree is List <==> kind_name(tree) == "array"@,
        tree is Object <==> kind_name(tree) == "object"@,
{
    reveal_strlit("null");
    reveal_strlit("boolean");
    reveal_strlit("number");
    reveal_strlit("string");
    reveal_strlit("array");
    reveal_strlit("object");
    assert("null"@.len() == 4 && "boolean"@.len() == 7 && "array"@.len() == 5);
    assert("number"@[0] == 'n' && "string"@[0] == 's' && "object"@[0] == 'o');
    assert("number"@.len() == 6 && "string"@.len() == 6 && "object"@.len() == 6);
}

} // verus!
