//! What a model provider sends back: one frame of a response, read from its
//! text into the parts that are captured and charged.

use vstd::prelude::*;
use crate::json;
use crate::json::{Json, JsonTree};
use crate::pricing;
use crate::pricing::{Price, JCS_SAFE_MAX};
use crate::text;

verus! {

/// Token counts of one event.
#[derive(Clone, Copy, Debug)]
pub struct EventMetrics {
    pub prompt_tokens: Option<u64>,
    pub completion_tokens: Option<u64>,
    pub cached_tokens: Option<u64>,
    pub pruned_tokens: Option<u64>,
    pub pruning_ratio_millis: Option<u64>,
}

/// Why a session or a response came to its end.
#[derive(Clone, Copy, Debug, PartialEq, Eq, Structural)]
pub enum StopReason {
    Stop,
    MaxTokens,
    ToolUse,
    ContentFilter,
    BudgetExceeded,
    PolicyBlocked,
    IdentityRejected,
    LoopDetected,
    SessionClosed,
    Other,
}

/// A piece of a tool call, as one frame brings it.
#[derive(Debug)]
pub struct ProviderToolCallDelta {
    pub index: u64,
    pub id: Option<String>,
    pub name: Option<String>,
    pub arguments: String,
}

/// What one frame says.
#[derive(Debug)]
pub struct ParsedProviderChunk {
    pub message: String,
    pub reasoning: Option<String>,
    pub model_name: Option<String>,
    /// Counts that the frame reports. Where it reports no completion tokens,
    /// they are to be estimated: see [`ParsedProviderChunk::with_estimate`].
    pub metrics: EventMetrics,
    pub usage_reported: bool,
    pub finish_reason: Option<String>,
    pub cost_usd_micros: u64,
    pub cost_reported: bool,
    pub has_choices: bool,
    pub tool_call_deltas: Vec<ProviderToolCallDelta>,
}

/// A [`ProviderToolCallDelta`] by its texts.
#[verifier::ext_equal]
pub struct DeltaView {
    pub index: u64,
    pub id: Option<Seq<char>>,
    pub name: Option<Seq<char>>,
    pub arguments: Seq<char>,
}

impl View for ProviderToolCallDelta {
    type V = DeltaView;

    open spec fn view(&self) -> DeltaView {
        DeltaView {
            index: self.index,
            id: text::opt_text(self.id),
            name: text::opt_text(self.name),
            arguments: self.arguments@,
        }
    }
}

/// A [`ParsedProviderChunk`] by its texts.
#[verifier::ext_equal]
pub struct ChunkView {
    pub message: Seq<char>,
    pub reasoning: Option<Seq<char>>,
    pub model_name: Option<Seq<char>>,
    pub metrics: EventMetrics,
    pub usage_reported: bool,
    pub finish_reason: Option<Seq<char>>,
    pub cost_usd_micros: u64,
    pub cost_reported: bool,
    pub has_choices: bool,
    pub deltas: Seq<DeltaView>,
}

/// The views of a list of tool-call pieces.
pub open spec fn delta_views(deltas: Seq<ProviderToolCallDelta>) -> Seq<DeltaView> {
    deltas.map_values(|d: ProviderToolCallDelta| d@)
}

impl View for ParsedProviderChunk {
    type V = ChunkView;

    open spec fn view(&self) -> ChunkView {
        ChunkView {
            message: self.message@,
            reasoning: text::opt_text(self.reasoning),
            model_name: text::opt_text(self.model_name),
            metrics: self.metrics,
            usage_reported: self.usage_reported,
            finish_reason: text::opt_text(self.finish_reason),
            cost_usd_micros: self.cost_usd_micros,
            cost_reported: self.cost_reported,
            has_choices: self.has_choices,
            deltas: delta_views(self.tool_call_deltas@),
        }
    }
}

/// The lines of a text, each CR and each LF ending one.
pub open spec fn lines(s: Seq<char>) -> Seq<Seq<char>>
    decreases s.len(),
{
    if s.len() == 0 {
        seq![Seq::empty()]
    } else if s.last() == '\r' || s.last() == '\n' {
        lines(s.drop_last()).push(Seq::empty())
    } else {
        let before = lines(s.drop_last());
        before.drop_last().push(before.last().push(s.last()))
    }
}

/// Whether a line is one of the event-stream format.
pub open spec fn is_event_line(line: Seq<char>) -> bool {
    ||| text::has_prefix(line, "data:"@)
    ||| line == "data"@
    ||| text::has_prefix(line, "event:"@)
    ||| text::has_prefix(line, "id:"@)
    ||| text::has_prefix(line, "retry:"@)
    ||| text::has_prefix(line, ":"@)
}

/// The values of the `data:` lines, in order, without white space at their front.
pub open spec fn data_values(lines: Seq<Seq<char>>) -> Seq<Seq<char>>
    decreases lines.len(),
{
    if lines.len() == 0 {
        Seq::empty()
    } else {
        let before = data_values(lines.drop_last());
        match text::without_prefix(lines.last(), "data:"@) {
            Some(value) => before.push(text::trim_front(value)),
            None => before,
        }
    }
}

/// Whether one of the lines is of the event-stream format.
pub open spec fn any_event_line(lines: Seq<Seq<char>>) -> bool {
    exists|i: int| 0 <= i < lines.len() && is_event_line(#[trigger] lines[i])
}

/// The document text that a frame carries: the data of an event, or the whole
/// of a frame that is no event. An empty frame, an event without data and the
/// closing `[DONE]` carry none.
pub open spec fn frame_document(raw: Seq<char>) -> Option<Seq<char>> {
    let all = lines(raw);
    let data = data_values(all);
    let candidate = if any_event_line(all) {
        text::joined(data, "\n"@)
    } else {
        text::trimmed(raw)
    };
    if (any_event_line(all) && data.len() == 0) || candidate.len() == 0 || candidate == "[DONE]"@ {
        None
    } else {
        Some(candidate)
    }
}

/// The first of two optional values that is there.
pub open spec fn first_of(a: Option<JsonTree>, b: Option<JsonTree>) -> Option<JsonTree> {
    match a {
        Some(_) => a,
        None => b,
    }
}

/// A count that the provider reports: absent, a proper integer, or an error.
pub open spec fn count_in(value: Option<JsonTree>, name: Seq<char>) -> Result<Option<u64>, Seq<char>> {
    match value {
        None => Ok(None),
        Some(_) => match json::unsigned_in(value) {
            None => Err("provider "@ + name + " is not a nonnegative integer"@),
            Some(n) => if n > JCS_SAFE_MAX {
                Err("provider "@ + name + " exceeds JCS-safe bounds"@)
            } else {
                Ok(Some(n))
            },
        },
    }
}

/// The price that the provider reports: absent, in millionths, or an error.
pub open spec fn cost_in(value: Option<JsonTree>) -> Result<Option<u64>, Seq<char>> {
    match value {
        None => Ok(None),
        Some(JsonTree::Number(number)) if number.double_bits is Some => match pricing::price_of(
            number.double_bits->0,
        ) {
            Price::Improper => Err("provider cost_usd is not finite and nonnegative"@),
            Price::Excessive => Err("provider cost exceeds JCS-safe receipt bounds"@),
            Price::Micros(n) => Ok(Some(n)),
        },
        Some(_) => Err("provider cost_usd is not a number"@),
    }
}

/// The part `name` of a choice: of its `delta`, else of its `message`.
pub open spec fn choice_part(choice: JsonTree, name: Seq<char>) -> Option<JsonTree> {
    first_of(json::member2(choice, "delta"@, name), json::member2(choice, "message"@, name))
}

/// The text of the part `name` of a choice; empty where there is none.
pub open spec fn choice_text(choice: JsonTree, name: Seq<char>) -> Seq<char> {
    match json::text_in(choice_part(choice, name)) {
        Some(s) => s,
        None => Seq::empty(),
    }
}

/// The texts of the part `name` of all choices, one after another.
pub open spec fn choices_text(choices: Seq<JsonTree>, name: Seq<char>) -> Seq<char>
    decreases choices.len(),
{
    if choices.len() == 0 {
        Seq::empty()
    } else {
        choices_text(choices.drop_last(), name) + choice_text(choices.last(), name)
    }
}

/// The finish reason of the last choice that gives one.
pub open spec fn finish_reason(choices: Seq<JsonTree>) -> Option<Seq<char>>
    decreases choices.len(),
{
    if choices.len() == 0 {
        None
    } else {
        match json::text_in(json::member(choices.last(), "finish_reason"@)) {
            Some(reason) => Some(reason),
            None => finish_reason(choices.drop_last()),
        }
    }
}

/// Whether the tool calls of a choice come in pieces.
pub open spec fn streams_calls(choice: JsonTree) -> bool {
    json::member2(choice, "delta"@, "tool_calls"@) is Some
}

/// What is wrong with the tool calls of a choice, if anything is.
pub open spec fn choice_fault(choice: JsonTree) -> Option<Seq<char>> {
    match choice_part(choice, "tool_calls"@) {
        None => None,
        Some(JsonTree::List(calls)) => if streams_calls(choice) && exists|i: int|
            0 <= i < calls.len() && json::unsigned_in(json::member(#[trigger] calls[i], "index"@)) is None {
            Some("streaming provider tool call has no index"@)
        } else {
            None
        },
        Some(_) => Some("provider tool_calls is not an array"@),
    }
}

/// What is wrong with the first faulty choice, if one is.
pub open spec fn first_fault(choices: Seq<JsonTree>) -> Option<Seq<char>>
    decreases choices.len(),
{
    if choices.len() == 0 {
        None
    } else {
        match first_fault(choices.drop_last()) {
            Some(fault) => Some(fault),
            None => choice_fault(choices.last()),
        }
    }
}

/// One tool call of a choice; one that has no index counts by its position.
pub open spec fn call_delta(call: JsonTree, position: int) -> DeltaView {
    DeltaView {
        index: match json::unsigned_in(json::member(call, "index"@)) {
            Some(index) => index,
            None => position as u64,
        },
        id: json::text_in(json::member(call, "id"@)),
        name: json::text_in(json::member2(call, "function"@, "name"@)),
        arguments: match json::text_in(json::member2(call, "function"@, "arguments"@)) {
            Some(arguments) => arguments,
            None => Seq::empty(),
        },
    }
}

/// The tool calls of a choice.
pub open spec fn choice_deltas(choice: JsonTree) -> Seq<DeltaView> {
    match choice_part(choice, "tool_calls"@) {
        Some(JsonTree::List(calls)) => Seq::new(calls.len(), |i: int| call_delta(calls[i], i)),
        _ => Seq::empty(),
    }
}

/// The tool calls of all choices, one after another.
pub open spec fn choices_deltas(choices: Seq<JsonTree>) -> Seq<DeltaView>
    decreases choices.len(),
{
    if choices.len() == 0 {
        Seq::empty()
    } else {
        choices_deltas(choices.drop_last()) + choice_deltas(choices.last())
    }
}

/// A text that counts as absent when it is empty.
pub open spec fn nonempty(s: Seq<char>) -> Option<Seq<char>> {
    if s.len() == 0 {
        None
    } else {
        Some(s)
    }
}

/// What a response document says, or the first thing that is wrong with it:
/// its counts, then its price, then its choices.
pub open spec fn chunk_in(document: JsonTree) -> Result<ChunkView, Seq<char>> {
    let usage = json::member(document, "usage"@);
    let prompt = count_in(json::member2(document, "usage"@, "prompt_tokens"@), "prompt_tokens"@);
    let completion = count_in(json::member2(document, "usage"@, "completion_tokens"@), "completion_tokens"@);
    let cached = count_in(
        match usage {
            Some(u) => json::member2(u, "prompt_tokens_details"@, "cached_tokens"@),
            None => None,
        },
        "cached_tokens"@,
    );
    let cost = cost_in(
        first_of(json::member2(document, "usage"@, "cost_usd"@), json::member(document, "cost_usd"@)),
    );
    let listed = json::member(document, "choices"@);
    let choices = match json::items_in(listed) {
        Some(items) => items,
        None => Seq::empty(),
    };
    if prompt is Err {
        Err(prompt->Err_0)
    } else if completion is Err {
        Err(completion->Err_0)
    } else if cached is Err {
        Err(cached->Err_0)
    } else if cost is Err {
        Err(cost->Err_0)
    } else if listed is Some && json::items_in(listed) is None {
        Err("provider choices is not an array"@)
    } else if first_fault(choices) is Some {
        Err(first_fault(choices)->0)
    } else {
        Ok(
            ChunkView {
                message: choices_text(choices, "content"@),
                reasoning: nonempty(choices_text(choices, "reasoning_content"@)),
                model_name: json::text_in(json::member(document, "model"@)),
                metrics: EventMetrics {
                    prompt_tokens: prompt->Ok_0,
                    completion_tokens: completion->Ok_0,
                    cached_tokens: cached->Ok_0,
                    pruned_tokens: None,
                    pruning_ratio_millis: None,
                },
                usage_reported: usage is Some,
                finish_reason: finish_reason(choices),
                cost_usd_micros: match cost->Ok_0 {
                    Some(n) => n,
                    None => 0,
                },
                cost_reported: cost->Ok_0 is Some,
                has_choices: listed is Some,
                deltas: choices_deltas(choices),
            },
        )
    }
}

/// The lines of a text.
fn split_lines(raw: &str) -> (parts: Vec<String>)
    ensures
        text::texts(parts@) == lines(raw@),
{
    let chars: Vec<char> = text::chars_of(raw);
    let mut parts: Vec<String> = Vec::new();
    let mut line: String = String::new();
    let mut i: usize = 0;
    assert(text::texts(parts@).push(line@) =~= lines(raw@.take(0)));
    while i < chars.len()
        invariant
            i <= chars@.len(),
            chars@ == raw@,
            text::texts(parts@).push(line@) == lines(raw@.take(i as int)),
        decreases chars.len() - i,
    {
        let c: char = chars[i];
        let ghost before = text::texts(parts@).push(line@);
        proof {
            assert(raw@.take(i + 1).drop_last() =~= raw@.take(i as int));
            assert(raw@.take(i + 1).last() == c);
            assert(before.drop_last() =~= text::texts(parts@));
        }
        if c == '\r' || c == '\n' {
            let ghost held = parts@;
            parts.push(line);
            line = String::new();
            proof {
                assert(text::texts(parts@) =~= before);
                assert(text::texts(parts@).push(line@) =~= lines(raw@.take(i + 1)));
            }
        } else {
            line.push(c);
            assert(text::texts(parts@).push(line@) =~= lines(raw@.take(i + 1)));
        }
        i += 1;
    }
    assert(raw@.take(i as int) =~= raw@);
    let ghost before = text::texts(parts@).push(line@);
    parts.push(line);
    assert(text::texts(parts@) =~= before);
    parts
}

/// Whether a line is one of the event-stream format.
fn event_line(line: &str) -> (found: bool)
    ensures
        found == is_event_line(line@),
{
    text::starts_with(line, "data:") || text::same_text(line, "data") || text::starts_with(line, "event:")
        || text::starts_with(line, "id:") || text::starts_with(line, "retry:") || text::starts_with(line, ":")
}

/// The document text that a frame carries, if it carries one.
pub fn document_text(raw: &str) -> (document: Option<String>)
    ensures
        text::opt_text(document) == frame_document(raw@),
{
    let parts: Vec<String> = split_lines(raw);
    let ghost all = lines(raw@);
    let mut event: bool = false;
    let mut data: Vec<String> = Vec::new();
    let mut i: usize = 0;
    assert(text::texts(data@) =~= data_values(all.take(0)));
    while i < parts.len()
        invariant
            i <= parts@.len(),
            text::texts(parts@) == all,
            text::texts(data@) == data_values(all.take(i as int)),
            event == any_event_line(all.take(i as int)),
        decreases parts.len() - i,
    {
        let ghost ahead = all.take(i + 1);
        proof {
            assert(ahead.drop_last() =~= all.take(i as int));
            assert(ahead.last() == all[i as int]);
            assert(all[i as int] == parts@[i as int]@);
            assert forall|k: int| 0 <= k < i implies ahead[k] == all.take(i as int)[k] by {}
        }
        let ghost held = data@;
        match text::strip_prefix(parts[i].as_str(), "data:") {
            Some(value) => {
                event = true;
                data.push(text::trim_start(value.as_str()));
                proof {
                    assert(text::texts(data@) =~= text::texts(held).push(data@.last()@));
                    assert(is_event_line(ahead[i as int]));
                }
            },
            None => {
                if event_line(parts[i].as_str()) {
                    event = true;
                    assert(is_event_line(ahead[i as int]));
                }
            },
        }
        proof {
            if any_event_line(ahead) {
                let k = choose|k: int| 0 <= k < ahead.len() && is_event_line(#[trigger] ahead[k]);
                if k < i {
                    assert(is_event_line(all.take(i as int)[k]));
                }
            }
            if any_event_line(all.take(i as int)) {
                let k = choose|k: int| 0 <= k < i && is_event_line(#[trigger] all.take(i as int)[k]);
                assert(is_event_line(ahead[k]));
            }
        }
        i += 1;
    }
    proof {
        assert(all.len() == parts@.len());
        assert(all.take(i as int) =~= all);
        assert(text::texts(data@).len() == data@.len());
    }
    let candidate: String = if event {
        if data.len() == 0 {
            return None;
        }
        text::join(&data, "\n")
    } else {
        text::trim(raw)
    };
    if candidate.as_str().is_empty() || text::same_text(candidate.as_str(), "[DONE]") {
        None
    } else {
        Some(candidate)
    }
}

/// A count that the provider reports under the name `field`.
pub fn provider_u64(value: Option<&Json>, field: &str) -> (count: Result<Option<u64>, String>)
    ensures
        match count {
            Ok(n) => count_in(json::tree_at(value), field@) == Ok::<Option<u64>, Seq<char>>(n),
            Err(e) => count_in(json::tree_at(value), field@) == Err::<Option<u64>, Seq<char>>(e@),
        },
{
    if value.is_none() {
        return Ok(None);
    }
    match json::as_unsigned(value) {
        None => Err(text::concat3("provider ", field, " is not a nonnegative integer")),
        Some(n) => {
            if n > JCS_SAFE_MAX {
                Err(text::concat3("provider ", field, " exceeds JCS-safe bounds"))
            } else {
                Ok(Some(n))
            }
        },
    }
}

/// The price that the provider reports.
fn provider_cost(value: Option<&Json>) -> (cost: Result<Option<u64>, String>)
    ensures
        match cost {
            Ok(n) => cost_in(json::tree_at(value)) == Ok::<Option<u64>, Seq<char>>(n),
            Err(e) => cost_in(json::tree_at(value)) == Err::<Option<u64>, Seq<char>>(e@),
        },
{
    match value {
        None => Ok(None),
        Some(Json::Number(number)) => match number.double_bits {
            Some(bits) => match pricing::price(bits) {
                Price::Improper => Err("provider cost_usd is not finite and nonnegative".to_owned()),
                Price::Excessive => Err("provider cost exceeds JCS-safe receipt bounds".to_owned()),
                Price::Micros(n) => Ok(Some(n)),
            },
            None => Err("provider cost_usd is not a number".to_owned()),
        },
        Some(_) => Err("provider cost_usd is not a number".to_owned()),
    }
}

/// The part `name` of a choice.
fn part_of<'a>(choice: &'a Json, name: &str) -> (part: Option<&'a Json>)
    ensures
        json::tree_at(part) == choice_part(choice@, name@),
{
    match choice.get2("delta", name) {
        Some(found) => Some(found),
        None => choice.get2("message", name),
    }
}

/// Appends the text of the part `name` of a choice, if it has one.
fn append_part(target: &mut String, choice: &Json, name: &str)
    ensures
        final(target)@ == old(target)@ + choice_text(choice@, name@),
{
    match json::as_text(part_of(choice, name)) {
        Some(s) => {
            target.append(s.as_str());
        },
        None => {
            assert(target@ + Seq::<char>::empty() =~= target@);
        },
    }
}

/// One tool call of a choice.
fn delta_of(call: &Json, position: usize) -> (delta: ProviderToolCallDelta)
    ensures
        delta@ == call_delta(call@, position as int),
{
    let index: u64 = match json::as_unsigned(call.get("index")) {
        Some(index) => index,
        None => position as u64,
    };
    let arguments: String = match json::as_text(call.get2("function", "arguments")) {
        Some(arguments) => arguments,
        None => String::new(),
    };
    ProviderToolCallDelta {
        index,
        id: json::as_text(call.get("id")),
        name: json::as_text(call.get2("function", "name")),
        arguments,
    }
}

/// Appends the tool calls of a choice.
fn append_calls(deltas: &mut Vec<ProviderToolCallDelta>, choice: &Json) -> (fault: Result<(), String>)
    ensures
        match fault {
            Ok(()) => choice_fault(choice@) is None && delta_views(final(deltas)@) == delta_views(
                old(deltas)@,
            ) + choice_deltas(choice@),
            Err(e) => choice_fault(choice@) == Some(e@),
        },
{
    let streaming: bool = choice.get2("delta", "tool_calls").is_some();
    let part: Option<&Json> = part_of(choice, "tool_calls");
    if part.is_none() {
        assert(delta_views(deltas@) + choice_deltas(choice@) =~= delta_views(deltas@));
        return Ok(());
    }
    let calls: &Vec<Json> = match json::as_list(part) {
        Some(calls) => calls,
        None => {
            return Err("provider tool_calls is not an array".to_owned());
        },
    };
    let ghost items = json::trees(calls@);
    let ghost start = delta_views(deltas@);
    let ghost wanted = choice_deltas(choice@);
    assert(start + wanted.take(0) =~= start);
    let mut i: usize = 0;
    while i < calls.len()
        invariant
            i <= calls@.len(),
            items == json::trees(calls@),
            choice_part(choice@, "tool_calls"@) == Some(JsonTree::List(items)),
            streaming == streams_calls(choice@),
            wanted == choice_deltas(choice@),
            delta_views(deltas@) == start + wanted.take(i as int),
            streaming ==> forall|k: int|
                0 <= k < i ==> json::unsigned_in(json::member(#[trigger] items[k], "index"@)) is Some,
        decreases calls.len() - i,
    {
        assert(items[i as int] == calls@[i as int]@);
        if streaming && json::as_unsigned(calls[i].get("index")).is_none() {
            return Err("streaming provider tool call has no index".to_owned());
        }
        let ghost held = deltas@;
        deltas.push(delta_of(&calls[i], i));
        proof {
            assert(delta_views(deltas@) =~= delta_views(held).push(deltas@.last()@));
            assert(wanted[i as int] == call_delta(items[i as int], i as int));
            assert(start + wanted.take(i + 1) =~= (start + wanted.take(i as int)).push(wanted[i as int]));
        }
        i += 1;
    }
    assert(wanted.take(i as int) =~= wanted);
    Ok(())
}

/// What the choices of a response document say together.
struct ChoiceParts {
    message: String,
    reasoning: String,
    finish: Option<String>,
    deltas: Vec<ProviderToolCallDelta>,
}

/// A fault in the first choices is the first fault of all of them.
proof fn lemma_early_fault(choices: Seq<JsonTree>, k: int)
    requires
        0 <= k <= choices.len(),
        first_fault(choices.take(k)) is Some,
    ensures
        first_fault(choices) == first_fault(choices.take(k)),
    decreases choices.len(),
{
    if k == choices.len() {
        assert(choices.take(k) =~= choices);
    } else {
        assert(choices.drop_last().take(k) =~= choices.take(k));
        lemma_early_fault(choices.drop_last(), k);
    }
}

/// Reads the choices of a response document in order.
fn read_choices(choices: &Vec<Json>) -> (parts: Result<ChoiceParts, String>)
    ensures
        match parts {
            Ok(p) => {
                let items = json::trees(choices@);
                &&& first_fault(items) is None
                &&& p.message@ == choices_text(items, "content"@)
                &&& p.reasoning@ == choices_text(items, "reasoning_content"@)
                &&& text::opt_text(p.finish) == finish_reason(items)
                &&& delta_views(p.deltas@) == choices_deltas(items)
            },
            Err(e) => first_fault(json::trees(choices@)) == Some(e@),
        },
{
    let ghost items = json::trees(choices@);
    let mut message: String = String::new();
    let mut reasoning: String = String::new();
    let mut finish: Option<String> = None;
    let mut deltas: Vec<ProviderToolCallDelta> = Vec::new();
    let mut i: usize = 0;
    assert(delta_views(deltas@) =~= choices_deltas(items.take(0)));
    while i < choices.len()
        invariant
            i <= choices@.len(),
            items == json::trees(choices@),
            message@ == choices_text(items.take(i as int), "content"@),
            reasoning@ == choices_text(items.take(i as int), "reasoning_content"@),
            text::opt_text(finish) == finish_reason(items.take(i as int)),
            delta_views(deltas@) == choices_deltas(items.take(i as int)),
            first_fault(items.take(i as int)) is None,
        decreases choices.len() - i,
    {
        let choice: &Json = &choices[i];
        proof {
            assert(items.take(i + 1).drop_last() =~= items.take(i as int));
            assert(items.take(i + 1).last() == choice@);
        }
        if let Some(reason) = json::as_text(choice.get("finish_reason")) {
            finish = Some(reason);
        }
        append_part(&mut message, choice, "content");
        append_part(&mut reasoning, choice, "reasoning_content");
        match append_calls(&mut deltas, choice) {
            Ok(()) => {},
            Err(e) => {
                proof {
                    assert(first_fault(items.take(i + 1)) == Some(e@));
                    lemma_early_fault(items, i + 1);
                }
                return Err(e);
            },
        }
        i += 1;
    }
    assert(items.take(i as int) =~= items);
    Ok(ChoiceParts { message, reasoning, finish, deltas })
}

/// What a response document says, or what is wrong with it.
pub fn parse_provider_value(value: &Json) -> (chunk: Result<ParsedProviderChunk, String>)
    ensures
        match chunk {
            Ok(c) => chunk_in(value@) == Ok::<ChunkView, Seq<char>>(c@),
            Err(e) => chunk_in(value@) == Err::<ChunkView, Seq<char>>(e@),
        },
{
    let usage_reported: bool = value.get("usage").is_some();
    let prompt_tokens: Option<u64> = match provider_u64(value.get2("usage", "prompt_tokens"), "prompt_tokens") {
        Ok(n) => n,
        Err(e) => {
            return Err(e);
        },
    };
    let completion_tokens: Option<u64> = match provider_u64(
        value.get2("usage", "completion_tokens"),
        "completion_tokens",
    ) {
        Ok(n) => n,
        Err(e) => {
            return Err(e);
        },
    };
    let details: Option<&Json> = match value.get("usage") {
        Some(usage) => usage.get2("prompt_tokens_details", "cached_tokens"),
        None => None,
    };
    let cached_tokens: Option<u64> = match provider_u64(details, "cached_tokens") {
        Ok(n) => n,
        Err(e) => {
            return Err(e);
        },
    };
    let cost_value: Option<&Json> = match value.get2("usage", "cost_usd") {
        Some(found) => Some(found),
        None => value.get("cost_usd"),
    };
    let cost: Option<u64> = match provider_cost(cost_value) {
        Ok(n) => n,
        Err(e) => {
            return Err(e);
        },
    };
    let has_choices: bool = value.get("choices").is_some();
    let none: Vec<Json> = Vec::new();
    let listed: Option<&Vec<Json>> = json::as_list(value.get("choices"));
    if has_choices && listed.is_none() {
        return Err("provider choices is not an array".to_owned());
    }
    let choices: &Vec<Json> = match listed {
        Some(items) => items,
        None => &none,
    };
    assert(listed is None ==> json::trees(choices@) =~= Seq::<JsonTree>::empty());
    let parts: ChoiceParts = match read_choices(choices) {
        Ok(parts) => parts,
        Err(e) => {
            return Err(e);
        },
    };
    let cost_usd_micros: u64 = match cost {
        Some(n) => n,
        None => 0,
    };
    let chunk = ParsedProviderChunk {
        message: parts.message,
        reasoning: if parts.reasoning.as_str().is_empty() {
            None
        } else {
            Some(parts.reasoning)
        },
        model_name: json::as_text(value.get("model")),
        metrics: EventMetrics {
            prompt_tokens,
            completion_tokens,
            cached_tokens,
            pruned_tokens: None,
            pruning_ratio_millis: None,
        },
        usage_reported,
        finish_reason: parts.finish,
        cost_usd_micros,
        cost_reported: cost.is_some(),
        has_choices,
        tool_call_deltas: parts.deltas,
    };
    Ok(chunk)
}

/// What one frame of a response says: nothing, where it carries no document,
/// else what its document says.
pub open spec fn chunk_of(raw: Seq<char>) -> Result<Option<ChunkView>, Seq<char>> {
    match frame_document(raw) {
        None => Ok(None),
        Some(document) => match json::json_document(document) {
            Err(words) => Err("invalid provider JSON frame: "@ + words),
            Ok(tree) => match chunk_in(tree) {
                Ok(chunk) => Ok(Some(chunk)),
                Err(fault) => Err(fault),
            },
        },
    }
}

/// Reads one frame of a response: an event of a stream, or a whole body.
pub fn parse_provider_chunk(raw: &str) -> (chunk: Result<Option<ParsedProviderChunk>, String>)
    ensures
        match chunk {
            Ok(None) => chunk_of(raw@) == Ok::<Option<ChunkView>, Seq<char>>(None),
            Ok(Some(c)) => chunk_of(raw@) == Ok::<Option<ChunkView>, Seq<char>>(Some(c@)),
            Err(e) => chunk_of(raw@) == Err::<Option<ChunkView>, Seq<char>>(e@),
        },
{
    match document_text(raw) {
        None => Ok(None),
        Some(document) => match json::parse_json(document.as_str()) {
            Err(words) => Err(text::concat2("invalid provider JSON frame: ", words.as_str())),
            Ok(value) => match parse_provider_value(&value) {
                Ok(chunk) => Ok(Some(chunk)),
                Err(fault) => Err(fault),
            },
        },
    }
}

/// The sum of a list of counts.
pub open spec fn total(counts: Seq<u64>) -> int
    decreases counts.len(),
{
    if counts.len() == 0 {
        0
    } else {
        total(counts.drop_last()) + counts.last()
    }
}

/// A number, or the largest `u64` where it is larger.
pub open spec fn capped(n: int) -> u64 {
    if n > u64::MAX {
        u64::MAX
    } else {
        n as u64
    }
}

/// The texts of a tool call that count as completion: its name and its arguments.
pub open spec fn delta_texts(delta: DeltaView) -> Seq<Seq<char>> {
    match delta.name {
        Some(name) => seq![name, delta.arguments],
        None => seq![delta.arguments],
    }
}

/// The texts of several tool calls that count as completion.
pub open spec fn deltas_texts(deltas: Seq<DeltaView>) -> Seq<Seq<char>>
    decreases deltas.len(),
{
    if deltas.len() == 0 {
        Seq::empty()
    } else {
        deltas_texts(deltas.drop_last()) + delta_texts(deltas.last())
    }
}

/// The texts of a frame that count as completion where it reports no count:
/// the message, the reasoning, and every tool call.
pub open spec fn counted_texts(chunk: ChunkView) -> Seq<Seq<char>> {
    seq![
        chunk.message,
        match chunk.reasoning {
            Some(reasoning) => reasoning,
            None => Seq::empty(),
        },
    ] + deltas_texts(chunk.deltas)
}

/// A frame with its completion count: the one it reports, else the sum of
/// `counts`, one for each of its counted texts.
pub open spec fn estimated(chunk: ChunkView, counts: Seq<u64>) -> ChunkView {
    ChunkView {
        metrics: EventMetrics {
            completion_tokens: match chunk.metrics.completion_tokens {
                Some(n) => Some(n),
                None => Some(capped(total(counts))),
            },
            ..chunk.metrics
        },
        ..chunk
    }
}

impl ParsedProviderChunk {
    /// The texts whose tokens are to be counted where the frame reports no
    /// completion count.
    pub fn texts_to_count(&self) -> (list: Vec<String>)
        ensures
            text::texts(list@) == counted_texts(self@),
    {
        let mut list: Vec<String> = Vec::new();
        list.push(self.message.clone());
        let reasoning: String = match &self.reasoning {
            Some(reasoning) => reasoning.clone(),
            None => String::new(),
        };
        list.push(reasoning);
        let ghost deltas = self@.deltas;
        let ghost front = text::texts(list@);
        let mut i: usize = 0;
        assert(front + deltas_texts(deltas.take(0)) =~= front);
        while i < self.tool_call_deltas.len()
            invariant
                i <= self.tool_call_deltas@.len(),
                deltas == delta_views(self.tool_call_deltas@),
                text::texts(list@) == front + deltas_texts(deltas.take(i as int)),
            decreases self.tool_call_deltas.len() - i,
        {
            let delta: &ProviderToolCallDelta = &self.tool_call_deltas[i];
            let ghost held = list@;
            proof {
                assert(deltas.take(i + 1).drop_last() =~= deltas.take(i as int));
                assert(deltas.take(i + 1).last() == delta@);
            }
            if let Some(name) = &delta.name {
                list.push(name.clone());
            }
            list.push(delta.arguments.clone());
            assert(text::texts(list@) =~= text::texts(held) + delta_texts(delta@));
            assert(text::texts(list@) =~= front + deltas_texts(deltas.take(i + 1)));
            i += 1;
        }
        assert(deltas.take(i as int) =~= deltas);
        assert(text::texts(list@) =~= counted_texts(self@));
        list
    }

    /// The frame with its completion count; `counts` holds the tokens of each
    /// of the texts to count.
    pub fn with_estimate(self, counts: &Vec<u64>) -> (chunk: ParsedProviderChunk)
        ensures
            chunk@ == estimated(self@, counts@),
    {
        let mut chunk = self;
        if chunk.metrics.completion_tokens.is_none() {
            let estimate: u64 = capped_total(counts);
            chunk.metrics.completion_tokens = Some(estimate);
        }
        chunk
    }
}

/// The sum of a list of counts, or the largest `u64` where it is larger.
pub fn capped_total(counts: &Vec<u64>) -> (sum: u64)
    ensures
        sum == capped(total(counts@)),
{
    let mut sum: u64 = 0;
    let mut i: usize = 0;
    while i < counts.len()
        invariant
            i <= counts@.len(),
            sum == capped(total(counts@.take(i as int))),
            0 <= total(counts@.take(i as int)),
        decreases counts.len() - i,
    {
        assert(counts@.take(i + 1).drop_last() =~= counts@.take(i as int));
        sum = sum.saturating_add(counts[i]);
        i += 1;
    }
    assert(counts@.take(i as int) =~= counts@);
    sum
}

/// The stop reason that a provider's own word for it stands for.
pub open spec fn stop_reason_of(native: Seq<char>) -> StopReason {
    if native == "stop"@ || native == "stop_sequence"@ || native == "end_turn"@ {
        StopReason::Stop
    } else if native == "length"@ || native == "max_tokens"@ {
        StopReason::MaxTokens
    } else if native == "tool_calls"@ || native == "function_call"@ || native == "tool_use"@ {
        StopReason::ToolUse
    } else if native == "content_filter"@ {
        StopReason::ContentFilter
    } else {
        StopReason::Other
    }
}

/// The stop reason that a provider's own word for it stands for.
pub fn map_finish_reason(native: &str) -> (reason: StopReason)
    ensures
        reason == stop_reason_of(native@),
{
    if text::same_text(native, "stop") || text::same_text(native, "stop_sequence") || text::same_text(
        native,
        "end_turn",
    ) {
        StopReason::Stop
    } else if text::same_text(native, "length") || text::same_text(native, "max_tokens") {
        StopReason::MaxTokens
    } else if text::same_text(native, "tool_calls") || text::same_text(native, "function_call")
        || text::same_text(native, "tool_use") {
        StopReason::ToolUse
    } else if text::same_text(native, "content_filter") {
        StopReason::ContentFilter
    } else {
        StopReason::Other
    }
}

/// What a response document says of itself is read from its own fields: the
/// model, whether it reports usage, and whether it has choices.
pub proof fn law_documents_speak_for_themselves(document: JsonTree)
    requires
        chunk_in(document) is Ok,
    ensures
        ({
            let chunk = chunk_in(document)->Ok_0;
            &&& match json::member(document, "model"@) {
                Some(JsonTree::Text(model)) => chunk.model_name == Some(model),
                _ => chunk.model_name is None,
            }
            &&& chunk.usage_reported <==> json::member(document, "usage"@) is Some
            &&& chunk.has_choices <==> json::member(document, "choices"@) is Some
            &&& chunk.has_choices ==> json::member(document, "choices"@)->0 is List
            &&& chunk.metrics.pruned_tokens is None && chunk.metrics.pruning_ratio_millis is None
        }),
{
}

/// The counts of a response document are those under its usage: a count that
/// is there is a whole number no larger than 2^53 - 1 and is taken as it is,
/// one that is missing is missing.
pub proof fn law_counts_are_taken_from_the_usage(document: JsonTree, usage: JsonTree)
    requires
        chunk_in(document) is Ok,
        json::member(document, "usage"@) == Some(usage),
    ensures
        ({
            let metrics = chunk_in(document)->Ok_0.metrics;
            &&& match json::member(usage, "prompt_tokens"@) {
                None => metrics.prompt_tokens is None,
                Some(JsonTree::Number(n)) => metrics.prompt_tokens == n.unsigned && n.unsigned is Some && n.unsigned->0
                    <= 9007199254740991,
                Some(_) => false,
            }
            &&& match json::member(usage, "completion_tokens"@) {
                None => metrics.completion_tokens is None,
                Some(JsonTree::Number(n)) => metrics.completion_tokens == n.unsigned && n.unsigned is Some
                    && n.unsigned->0 <= 9007199254740991,
                Some(_) => false,
            }
            &&& match json::member2(usage, "prompt_tokens_details"@, "cached_tokens"@) {
                None => metrics.cached_tokens is None,
                Some(JsonTree::Number(n)) => metrics.cached_tokens == n.unsigned && n.unsigned is Some && n.unsigned->0
                    <= 9007199254740991,
                Some(_) => false,
            }
        }),
{
}

/// A document without usage reports no counts.
pub proof fn law_no_usage_no_counts(document: JsonTree)
    requires
        chunk_in(document) is Ok,
        json::member(document, "usage"@) is None,
    ensures
        ({
            let metrics = chunk_in(document)->Ok_0.metrics;
            metrics.prompt_tokens is None && metrics.completion_tokens is None && metrics.cached_tokens is None
        }),
{
}

/// The cost of a response document is the one under its usage, else its own;
/// where neither is there, none is reported and it counts as zero. A cost
/// that is no price refuses the document.
pub proof fn law_costs_are_taken_from_the_usage_first(document: JsonTree)
    requires
        chunk_in(document) is Ok,
    ensures
        ({
            let chunk = chunk_in(document)->Ok_0;
            let under_usage = json::member2(document, "usage"@, "cost_usd"@);
            let own = json::member(document, "cost_usd"@);
            &&& chunk.cost_reported <==> under_usage is Some || own is Some
            &&& !chunk.cost_reported ==> chunk.cost_usd_micros == 0
            &&& chunk.cost_reported ==> {
                let given = if under_usage is Some {
                    under_usage->0
                } else {
                    own->0
                };
                &&& given matches JsonTree::Number(n)
                &&& n.double_bits matches Some(bits)
                &&& pricing::price_of(bits) == Price::Micros(chunk.cost_usd_micros)
            }
        }),
{
}

/// A document is refused where an account in it is not sound: a count that is
/// no whole number up to 2^53 - 1, or choices that are no list.
pub proof fn law_unsound_accounts_are_refused(document: JsonTree, name: Seq<char>)
    requires
        name == "prompt_tokens"@ || name == "completion_tokens"@,
        json::member2(document, "usage"@, name) is Some,
        !(json::member2(document, "usage"@, name) matches Some(JsonTree::Number(n)) && n.unsigned is Some && n.unsigned->0
            <= 9007199254740991),
    ensures
        chunk_in(document) is Err,
{
}

/// Choices that are no list refuse the document.
pub proof fn law_choices_are_a_list(document: JsonTree)
    requires
        json::member(document, "choices"@) is Some,
        !(json::member(document, "choices"@)->0 is List),
    ensures
        chunk_in(document) is Err,
{
}

/// What a document with one choice says is what the choice says: in a frame
/// of a stream under its `delta`, in a whole response under its `message`.
pub proof fn law_a_choice_is_read_from_its_delta_or_message(document: JsonTree, choice: JsonTree)
    requires
        chunk_in(document) is Ok,
        json::member(document, "choices"@) == Some(JsonTree::List(seq![choice])),
    ensures
        ({
            let chunk = chunk_in(document)->Ok_0;
            let said = if json::member2(choice, "delta"@, "content"@) is Some {
                json::member2(choice, "delta"@, "content"@)
            } else {
                json::member2(choice, "message"@, "content"@)
            };
            let thought = if json::member2(choice, "delta"@, "reasoning_content"@) is Some {
                json::member2(choice, "delta"@, "reasoning_content"@)
            } else {
                json::member2(choice, "message"@, "reasoning_content"@)
            };
            &&& match said {
                Some(JsonTree::Text(words)) => chunk.message == words,
                _ => chunk.message == Seq::<char>::empty(),
            }
            &&& match thought {
                Some(JsonTree::Text(words)) => if words.len() > 0 {
                    chunk.reasoning == Some(words)
                } else {
                    chunk.reasoning is None
                },
                _ => chunk.reasoning is None,
            }
            &&& match json::member(choice, "finish_reason"@) {
                Some(JsonTree::Text(reason)) => chunk.finish_reason == Some(reason),
                _ => chunk.finish_reason is None,
            }
        }),
{
    let choices = seq![choice];
    assert(choices.drop_last() =~= Seq::empty());
    assert(choices.last() == choice);
    assert(choices_text(choices.drop_last(), "content"@) =~= Seq::empty());
    assert(choices_text(choices.drop_last(), "reasoning_content"@) =~= Seq::empty());
    assert(choices_text(choices, "content"@) =~= choice_text(choice, "content"@));
    assert(choices_text(choices, "reasoning_content"@) =~= choice_text(choice, "reasoning_content"@));
    assert(finish_reason(choices.drop_last()) is None);
}

/// Several choices are read one behind the other.
pub proof fn law_choices_are_read_in_order(first: Seq<JsonTree>, second: Seq<JsonTree>, name: Seq<char>)
    ensures
        choices_text(first + second, name) == choices_text(first, name) + choices_text(second, name),
        choices_deltas(first + second) == choices_deltas(first) + choices_deltas(second),
        finish_reason(first + second) == (if finish_reason(second) is Some {
            finish_reason(second)
        } else {
            finish_reason(first)
        }),
    decreases second.len(),
{
    if second.len() == 0 {
        assert(first + second =~= first);
        assert(choices_text(first, name) + choices_text(second, name) =~= choices_text(first, name));
        assert(choices_deltas(first) + choices_deltas(second) =~= choices_deltas(first));
    } else {
        law_choices_are_read_in_order(first, second.drop_last(), name);
        assert((first + second).drop_last() =~= first + second.drop_last());
        assert((first + second).last() == second.last());
        assert(choices_text(first + second, name) =~= choices_text(first, name) + choices_text(second, name));
        assert(choices_deltas(first + second) =~= choices_deltas(first) + choices_deltas(second));
    }
}

/// The tool calls of a choice are taken in order, each with the index, the
/// id, the name and the arguments that it has: in a stream every piece names
/// its index, in a whole response a call without one counts by its place.
pub proof fn law_tool_calls_are_read_in_place(choice: JsonTree, calls: Seq<JsonTree>)
    requires
        (if json::member2(choice, "delta"@, "tool_calls"@) is Some {
            json::member2(choice, "delta"@, "tool_calls"@)
        } else {
            json::member2(choice, "message"@, "tool_calls"@)
        }) == Some(JsonTree::List(calls)),
        calls.len() <= u64::MAX,
    ensures
        ({
            let deltas = choice_deltas(choice);
            &&& deltas.len() == calls.len()
            &&& forall|i: int|
                0 <= i < calls.len() ==> {
                    let piece = #[trigger] deltas[i];
                    &&& match json::member(calls[i], "index"@) {
                        Some(JsonTree::Number(n)) if n.unsigned is Some => piece.index == n.unsigned->0,
                        _ => piece.index == i,
                    }
                    &&& match json::member(calls[i], "id"@) {
                        Some(JsonTree::Text(id)) => piece.id == Some(id),
                        _ => piece.id is None,
                    }
                    &&& match json::member2(calls[i], "function"@, "name"@) {
                        Some(JsonTree::Text(name)) => piece.name == Some(name),
                        _ => piece.name is None,
                    }
                    &&& match json::member2(calls[i], "function"@, "arguments"@) {
                        Some(JsonTree::Text(arguments)) => piece.arguments == arguments,
                        _ => piece.arguments == Seq::<char>::empty(),
                    }
                }
            &&& choice_fault(choice) is None && json::member2(choice, "delta"@, "tool_calls"@) is Some ==> forall|i: int|
                0 <= i < calls.len() ==> (json::member(#[trigger] calls[i], "index"@) matches Some(JsonTree::Number(n))
                    && n.unsigned is Some)
        }),
{
}

/// The words of the common providers for the end of a response are known:
/// each of these, and no other, stands for a stop, a full context, a tool
/// call or a filter.
pub proof fn law_finish_reasons_are_told_apart(native: Seq<char>)
    ensures
        stop_reason_of(native) == StopReason::Stop <==> native == "stop"@ || native == "stop_sequence"@ || native
            == "end_turn"@,
        stop_reason_of(native) == StopReason::MaxTokens <==> native == "length"@ || native == "max_tokens"@,
        stop_reason_of(native) == StopReason::ToolUse <==> native == "tool_calls"@ || native == "function_call"@
            || native == "tool_use"@,
        stop_reason_of(native) == StopReason::ContentFilter <==> native == "content_filter"@,
        !(native == "stop"@ || native == "stop_sequence"@ || native == "end_turn"@ || native == "length"@ || native
            == "max_tokens"@ || native == "tool_calls"@ || native == "function_call"@ || native == "tool_use"@ || native
            == "content_filter"@) ==> stop_reason_of(native) == StopReason::Other,
{
    reveal_strlit("stop");
    reveal_strlit("stop_sequence");
    reveal_strlit("end_turn");
    reveal_strlit("length");
    reveal_strlit("max_tokens");
    reveal_strlit("tool_calls");
    reveal_strlit("function_call");
    reveal_strlit("tool_use");
    reveal_strlit("content_filter");
    assert("stop"@[0] == 's' && "stop_sequence"@[0] == 's' && "end_turn"@[0] == 'e');
    assert("length"@[0] == 'l' && "max_tokens"@[0] == 'm');
    assert("tool_calls"@[0] == 't' && "function_call"@[0] == 'f' && "tool_use"@[0] == 't');
    assert("content_filter"@[0] == 'c');
}

/// A frame that counts its completion keeps its count; one that does not
/// gets the sum of the counts of its texts. Nothing else of it changes.
pub proof fn law_estimates_fill_gaps_only(chunk: ChunkView, counts: Seq<u64>)
    ensures
        ({
            let filled = estimated(chunk, counts);
            &&& chunk.metrics.completion_tokens is Some ==> filled == chunk
            &&& chunk.metrics.completion_tokens is None && total(counts) <= u64::MAX ==> (
            filled.metrics.completion_tokens matches Some(n) && n == total(counts))
            &&& filled.metrics.prompt_tokens == chunk.metrics.prompt_tokens
            &&& filled.metrics.cached_tokens == chunk.metrics.cached_tokens
            &&& filled.message == chunk.message && filled.reasoning == chunk.reasoning && filled.deltas == chunk.deltas
            &&& filled.usage_reported == chunk.usage_reported && filled.cost_reported == chunk.cost_reported
            &&& filled.cost_usd_micros == chunk.cost_usd_micros && filled.has_choices == chunk.has_choices
            &&& filled.model_name == chunk.model_name && filled.finish_reason == chunk.finish_reason
        }),
{
    lemma_total_is_not_negative(counts);
}

/// A sum of counts is not below zero.
proof fn lemma_total_is_not_negative(counts: Seq<u64>)
    ensures
        total(counts) >= 0,
    decreases counts.len(),
{
    if counts.len() > 0 {
        lemma_total_is_not_negative(counts.drop_last());
    }
}

/// Every text that a frame brings is counted: its message, its reasoning,
/// and the name and the arguments of every tool call.
pub proof fn law_every_text_is_counted(chunk: ChunkView)
    ensures
        counted_texts(chunk).contains(chunk.message),
        chunk.reasoning matches Some(reasoning) ==> counted_texts(chunk).contains(reasoning),
        forall|i: int| 0 <= i < chunk.deltas.len() ==> counted_texts(chunk).contains((#[trigger] chunk.deltas[i]).arguments),
        forall|i: int|
            0 <= i < chunk.deltas.len() ==> ((#[trigger] chunk.deltas[i]).name matches Some(name) ==> counted_texts(
                chunk,
            ).contains(name)),
{
    let all = counted_texts(chunk);
    assert(all[0] == chunk.message);
    if let Some(reasoning) = chunk.reasoning {
        assert(all[1] == reasoning);
    }
    assert forall|i: int| 0 <= i < chunk.deltas.len() implies all.contains((#[trigger] chunk.deltas[i]).arguments) && (
    chunk.deltas[i].name matches Some(name) ==> all.contains(name)) by {
        lemma_delta_texts_are_counted(chunk.deltas, i);
        let rest = deltas_texts(chunk.deltas);
        let k = choose|k: int| 0 <= k < rest.len() && rest[k] == chunk.deltas[i].arguments;
        assert(all[k + 2] == chunk.deltas[i].arguments);
        if let Some(name) = chunk.deltas[i].name {
            let m = choose|m: int| 0 <= m < rest.len() && rest[m] == name;
            assert(all[m + 2] == name);
        }
    }
}

/// The texts of every tool call are among those of all.
proof fn lemma_delta_texts_are_counted(deltas: Seq<DeltaView>, i: int)
    requires
        0 <= i < deltas.len(),
    ensures
        deltas_texts(deltas).contains(deltas[i].arguments),
        deltas[i].name matches Some(name) ==> deltas_texts(deltas).contains(name),
    decreases deltas.len(),
{
    let before = deltas_texts(deltas.drop_last());
    let last = delta_texts(deltas.last());
    let all = deltas_texts(deltas);
    if i == deltas.len() - 1 {
        assert(last[last.len() - 1] == deltas[i].arguments);
        assert(all[before.len() + last.len() - 1] == deltas[i].arguments);
        if let Some(name) = deltas[i].name {
            assert(all[before.len() as int] == name);
        }
    } else {
        lemma_delta_texts_are_counted(deltas.drop_last(), i);
        assert(deltas.drop_last()[i] == deltas[i]);
        let k = choose|k: int| 0 <= k < before.len() && before[k] == deltas[i].arguments;
        assert(all[k] == deltas[i].arguments);
        if let Some(name) = deltas[i].name {
            let m = choose|m: int| 0 <= m < before.len() && before[m] == name;
            assert(all[m] == name);
        }
    }
}

/// A text without a line end is one line.
proof fn lemma_one_line(s: Seq<char>)
    requires
        forall|i: int| 0 <= i < s.len() ==> #[trigger] s[i] != '\r' && s[i] != '\n',
    ensures
        lines(s) == seq![s],
    decreases s.len(),
{
    if s.len() == 0 {
        assert(s =~= Seq::empty());
    } else {
        assert(s[s.len() - 1] != '\r' && s[s.len() - 1] != '\n');
        let front = s.drop_last();
        assert forall|i: int| 0 <= i < front.len() implies #[trigger] front[i] != '\r' && front[i] != '\n' by {
            assert(front[i] == s[i]);
        }
        lemma_one_line(front);
        assert(seq![front].drop_last() =~= Seq::empty());
        assert(front.push(s.last()) =~= s);
        assert(lines(s) =~= seq![s]);
    }
}

/// An event of one line carries its data, without the white space at the
/// front; the closing `[DONE]` and an event without data carry nothing.
pub proof fn law_events_carry_their_data(value: Seq<char>)
    requires
        forall|i: int| 0 <= i < value.len() ==> #[trigger] value[i] != '\r' && value[i] != '\n',
    ensures
        frame_document("data:"@ + value) == (if text::trim_front(value).len() == 0 || text::trim_front(value)
            == "[DONE]"@ {
            None
        } else {
            Some(text::trim_front(value))
        }),
{
    reveal_strlit("data:");
    let raw = "data:"@ + value;
    assert forall|i: int| 0 <= i < raw.len() implies #[trigger] raw[i] != '\r' && raw[i] != '\n' by {
        if i >= 5 {
            assert(raw[i] == value[i - 5]);
        } else {
            assert(raw[i] == "data:"@[i]);
        }
    }
    lemma_one_line(raw);
    let all = seq![raw];
    assert(raw.take(5) =~= "data:"@);
    assert(raw.skip(5) =~= value);
    assert(all[0] == raw && is_event_line(all[0]));
    assert(all.drop_last() =~= Seq::empty());
    assert(data_values(all.drop_last()) =~= Seq::empty());
    assert(data_values(all) =~= seq![text::trim_front(value)]);
}

/// A body that is no event stream carries itself, without the white space
/// around it.
pub proof fn law_plain_bodies_carry_themselves(raw: Seq<char>)
    requires
        !any_event_line(lines(raw)),
        text::trimmed(raw).len() > 0,
        text::trimmed(raw) != "[DONE]"@,
    ensures
        frame_document(raw) == Some(text::trimmed(raw)),
        json::json_document(text::trimmed(raw)) matches Ok(tree) ==> match chunk_in(tree) {
            Ok(chunk) => chunk_of(raw) == Ok::<Option<ChunkView>, Seq<char>>(Some(chunk)),
            Err(fault) => chunk_of(raw) == Err::<Option<ChunkView>, Seq<char>>(fault),
        },
        json::json_document(text::trimmed(raw)) is Err ==> chunk_of(raw) is Err,
{
}

/// A price that is no number, no proper amount, or too large is refused for
/// that; a count likewise, by its name.
pub proof fn law_refused_accounts_are_told_why(value: Option<JsonTree>, name: Seq<char>)
    ensures
        (value matches Some(tree) && tree !is Number) ==> cost_in(value) == Err::<Option<u64>, Seq<char>>(
            "provider cost_usd is not a number"@,
        ),
        (value matches Some(JsonTree::Number(n)) && n.double_bits is Some && pricing::price_of(n.double_bits->0)
            == Price::Improper) ==> cost_in(value) == Err::<Option<u64>, Seq<char>>(
            "provider cost_usd is not finite and nonnegative"@,
        ),
        (value matches Some(JsonTree::Number(n)) && n.double_bits is Some && pricing::price_of(n.double_bits->0)
            == Price::Excessive) ==> cost_in(value) == Err::<Option<u64>, Seq<char>>(
            "provider cost exceeds JCS-safe receipt bounds"@,
        ),
        value is Some && json::unsigned_in(value) is None ==> count_in(value, name) == Err::<Option<u64>, Seq<char>>(
            "provider "@ + name + " is not a nonnegative integer"@,
        ),
        (json::unsigned_in(value) matches Some(n) && n > 9007199254740991) ==> count_in(value, name) == Err::<
            Option<u64>,
            Seq<char>,
        >("provider "@ + name + " exceeds JCS-safe bounds"@),
{
}

/// The fields of an event and its comments mark a frame as one of an event
/// stream; no other line does.
pub proof fn law_fields_mark_an_event(line: Seq<char>, value: Seq<char>)
    ensures
        is_event_line("data:"@ + value),
        is_event_line("data"@),
        is_event_line("event:"@ + value),
        is_event_line("id:"@ + value),
        is_event_line("retry:"@ + value),
        is_event_line(":"@ + value),
        is_event_line(line) ==> line == "data"@ || line.contains(':'),
{
    reveal_strlit("data:");
    reveal_strlit("event:");
    reveal_strlit("id:");
    reveal_strlit("retry:");
    reveal_strlit(":");
    assert(("data:"@ + value).take(5) =~= "data:"@);
    assert(("event:"@ + value).take(6) =~= "event:"@);
    assert(("id:"@ + value).take(3) =~= "id:"@);
    assert(("retry:"@ + value).take(6) =~= "retry:"@);
    assert((":"@ + value).take(1) =~= ":"@);
    if text::has_prefix(line, "data:"@) {
        assert(line.take(5)[4] == ':');
        assert(line[4] == ':');
    }
    if text::has_prefix(line, "event:"@) {
        assert(line.take(6)[5] == ':');
        assert(line[5] == ':');
    }
    if text::has_prefix(line, "id:"@) {
        assert(line.take(3)[2] == ':');
        assert(line[2] == ':');
    }
    if text::has_prefix(line, "retry:"@) {
        assert(line.take(6)[5] == ':');
        assert(line[5] == ':');
    }
    if text::has_prefix(line, ":"@) {
        assert(line.take(1)[0] == ':');
        assert(line[0] == ':');
    }
}

/// Tool calls that are no list, or a streamed call without its place, make a
/// choice unusable.
pub proof fn law_unusable_choices_are_told_why(choice: JsonTree)
    ensures
        (choice_part(choice, "tool_calls"@) matches Some(part) && part !is List) ==> choice_fault(choice) == Some(
            "provider tool_calls is not an array"@,
        ),
        (choice_part(choice, "tool_calls"@) matches Some(JsonTree::List(calls)) && streams_calls(choice) && exists|i: int|
            0 <= i < calls.len() && json::unsigned_in(json::member(#[trigger] calls[i], "index"@)) is None)
            ==> choice_fault(choice) == Some("streaming provider tool call has no index"@),
        choice_part(choice, "tool_calls"@) is None ==> choice_fault(choice) is None,
{
}

/// A count that a receipt can hold is taken as it is, up to the largest.
pub proof fn law_safe_counts_are_taken(value: Option<JsonTree>, name: Seq<char>, micros: u64)
    ensures
        (json::unsigned_in(value) matches Some(n) && n <= 9007199254740991) ==> count_in(value, name) == Ok::<
            Option<u64>,
            Seq<char>,
        >(json::unsigned_in(value)),
        value is None ==> count_in(value, name) == Ok::<Option<u64>, Seq<char>>(None) && cost_in(value) == Ok::<
            Option<u64>,
            Seq<char>,
        >(None),
        (value matches Some(JsonTree::Number(n)) && n.double_bits is Some && pricing::price_of(n.double_bits->0)
            == Price::Micros(micros)) ==> cost_in(value) == Ok::<Option<u64>, Seq<char>>(Some(micros)),
{
}

} // verus!
