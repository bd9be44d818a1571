//! Capture of a provider's response: the bytes of the stream, cut into
//! frames, and what the frames say, gathered with its token charges.

use vstd::prelude::*;
use vstd::utf8::{decode_utf8, valid_utf8};
use crate::pricing::JCS_SAFE_MAX;
use crate::provider;
use crate::provider::{ChunkView, DeltaView, EventMetrics, ParsedProviderChunk, ProviderToolCallDelta};
use crate::sse;
use crate::text;

verus! {

/// Most bytes of one response that are captured.
pub const MAX_PROVIDER_CAPTURE_BYTES: usize = 16777216;

/// Most bytes of one captured text, and of an event that is not complete.
pub const MAX_PROVIDER_FIELD_BYTES: usize = 8388608;

/// Most tool calls of one response.
pub const MAX_PROVIDER_TOOL_CALLS: u64 = 128;

/// What `std::str::from_utf8` says of bytes that are no text.
pub uninterp spec fn utf8_fault(bytes: Seq<u8>) -> Seq<char>;

/// `std::str::from_utf8`: the text that the bytes encode, or, exactly where
/// they are not valid UTF-8, the words of the error.
#[verifier::external_body]
pub(crate) fn text_of_bytes(bytes: &[u8]) -> (read: Result<String, String>)
    ensures
        match read {
            Ok(s) => valid_utf8(bytes@) && s@ == decode_utf8(bytes@),
            Err(words) => !valid_utf8(bytes@) && words@ == utf8_fault(bytes@),
        },
{
    match std::str::from_utf8(bytes) {
        Ok(s) => Ok(s.to_owned()),
        Err(error) => Err(error.to_string()),
    }
}

/// What is wrong with appending `value` to `target`, if anything is.
pub open spec fn bound_fault(target: Seq<char>, value: Seq<char>, field: Seq<char>) -> Option<Seq<char>> {
    let size = text::byte_len(target) + text::byte_len(value);
    if size > usize::MAX {
        Some(field + " size overflow"@)
    } else if size > MAX_PROVIDER_FIELD_BYTES {
        Some(field + " exceeds 8388608 bytes"@)
    } else {
        None
    }
}

/// What is wrong with appending `value` to `target`, if anything is.
fn over_bound(target: &str, value: &str, field: &str) -> (fault: Option<String>)
    ensures
        text::opt_text(fault) == bound_fault(target@, value@, field@),
{
    match text::byte_length(target).checked_add(text::byte_length(value)) {
        Some(size) => {
            if size > MAX_PROVIDER_FIELD_BYTES {
                Some(text::concat2(field, " exceeds 8388608 bytes"))
            } else {
                None
            }
        },
        None => Some(text::concat2(field, " size overflow")),
    }
}

/// Appends `value` to `target`, unless the result would be too long; then
/// `target` stays as it is and the error names the field.
pub fn push_bounded(target: &mut String, value: &str, field: &str) -> (pushed: Result<(), String>)
    ensures
        match pushed {
            Ok(()) => bound_fault(old(target)@, value@, field@) is None && final(target)@ == old(target)@
                + value@,
            Err(e) => bound_fault(old(target)@, value@, field@) == Some(e@) && final(target)@ == old(
                target,
            )@,
        },
{
    match over_bound(target.as_str(), value, field) {
        Some(fault) => Err(fault),
        None => {
            target.append(value);
            Ok(())
        },
    }
}

/// Whether a running count went down.
pub open spec fn regressed(previous: Option<u64>, current: Option<u64>) -> bool {
    previous matches Some(p) && current matches Some(c) && c < p
}

/// The later of two reports of a count: a missing one changes nothing.
pub open spec fn latest(previous: Option<u64>, current: Option<u64>) -> Option<u64> {
    match current {
        Some(c) => Some(c),
        None => previous,
    }
}

/// Takes a new report of a running count, which may not go down.
pub fn reject_metric_regression(field: &str, previous: &mut Option<u64>, current: Option<u64>) -> (taken: Result<
    (),
    String,
>)
    ensures
        match taken {
            Ok(()) => !regressed(*old(previous), current) && *final(previous) == latest(
                *old(previous),
                current,
            ),
            Err(e) => regressed(*old(previous), current) && *final(previous) == *old(previous) && e@
                == "provider "@ + field@ + " regressed"@,
        },
{
    let now: u64 = match current {
        Some(now) => now,
        None => {
            return Ok(());
        },
    };
    if let Some(before) = *previous {
        if now < before {
            return Err(text::concat3("provider ", field, " regressed"));
        }
    }
    *previous = Some(now);
    Ok(())
}

/// A tool call, as far as its pieces have come.
#[derive(Debug)]
pub struct PartialToolCall {
    pub index: u64,
    pub id: Option<String>,
    pub name: Option<String>,
    pub arguments: String,
}

impl View for PartialToolCall {
    type V = DeltaView;

    open spec fn view(&self) -> DeltaView {
        DeltaView {
            index: self.index,
            id: text::opt_text(self.id),
            name: text::opt_text(self.name),
            arguments: self.arguments@,
        }
    }
}

/// The views of a list of tool calls.
pub open spec fn call_views(calls: Seq<PartialToolCall>) -> Seq<DeltaView> {
    calls.map_values(|c: PartialToolCall| c@)
}

/// A later text replaces an earlier one; a missing one changes nothing.
pub open spec fn latest_text(previous: Option<Seq<char>>, current: Option<Seq<char>>) -> Option<Seq<char>> {
    match current {
        Some(s) => Some(s),
        None => previous,
    }
}

/// A tool call of which nothing has come yet.
pub open spec fn empty_call(index: u64) -> DeltaView {
    DeltaView { index, id: None, name: None, arguments: Seq::empty() }
}

/// A tool call with one more piece.
pub open spec fn extended(call: DeltaView, piece: DeltaView) -> DeltaView {
    DeltaView {
        index: call.index,
        id: latest_text(call.id, piece.id),
        name: latest_text(call.name, piece.name),
        arguments: call.arguments + piece.arguments,
    }
}

/// How many calls at the front have an index below `index`.
pub open spec fn slot(calls: Seq<DeltaView>, index: u64) -> int
    decreases calls.len(),
{
    if calls.len() == 0 || calls[0].index >= index {
        0
    } else {
        1 + slot(calls.skip(1), index)
    }
}

/// The call that a piece belongs to, as it is before the piece.
pub open spec fn call_before(calls: Seq<DeltaView>, index: u64) -> DeltaView {
    let p = slot(calls, index);
    if p < calls.len() && calls[p].index == index {
        calls[p]
    } else {
        empty_call(index)
    }
}

/// The calls, in the order of their indices, with one more piece.
pub open spec fn merged_one(calls: Seq<DeltaView>, piece: DeltaView) -> Seq<DeltaView> {
    let p = slot(calls, piece.index);
    let call = extended(call_before(calls, piece.index), piece);
    if p < calls.len() && calls[p].index == piece.index {
        calls.update(p, call)
    } else {
        calls.insert(p, call)
    }
}

/// The calls with several more pieces, taken in order.
pub open spec fn merged(calls: Seq<DeltaView>, pieces: Seq<DeltaView>) -> Seq<DeltaView>
    decreases pieces.len(),
{
    if pieces.len() == 0 {
        calls
    } else {
        merged_one(merged(calls, pieces.drop_last()), pieces.last())
    }
}

/// What is wrong with one piece of a tool call, if anything is.
pub open spec fn piece_fault(calls: Seq<DeltaView>, piece: DeltaView) -> Option<Seq<char>> {
    if piece.index >= MAX_PROVIDER_TOOL_CALLS {
        Some("provider tool-call index "@ + text::decimal_digits(piece.index as nat) + " is out of range"@)
    } else {
        bound_fault(call_before(calls, piece.index).arguments, piece.arguments, "tool-call arguments"@)
    }
}

/// What is wrong with the first faulty piece, if one is.
pub open spec fn pieces_fault(calls: Seq<DeltaView>, pieces: Seq<DeltaView>) -> Option<Seq<char>>
    decreases pieces.len(),
{
    if pieces.len() == 0 {
        None
    } else {
        match pieces_fault(calls, pieces.drop_last()) {
            Some(fault) => Some(fault),
            None => piece_fault(merged(calls, pieces.drop_last()), pieces.last()),
        }
    }
}

/// Whether the calls stand in the order of their indices, each once, and all
/// indices are in range.
pub open spec fn calls_in_order(calls: Seq<DeltaView>) -> bool {
    &&& forall|i: int, j: int| 0 <= i < j < calls.len() ==> (#[trigger] calls[i]).index < (#[trigger] calls[j]).index
    &&& forall|i: int| 0 <= i < calls.len() ==> (#[trigger] calls[i]).index < MAX_PROVIDER_TOOL_CALLS
}

/// The slot of an index parts the smaller indices from the others.
proof fn lemma_slot(calls: Seq<DeltaView>, index: u64)
    requires
        calls_in_order(calls),
    ensures
        0 <= slot(calls, index) <= calls.len(),
        forall|i: int| 0 <= i < slot(calls, index) ==> (#[trigger] calls[i]).index < index,
        forall|i: int| slot(calls, index) <= i < calls.len() ==> (#[trigger] calls[i]).index >= index,
    decreases calls.len(),
{
    if calls.len() == 0 || calls[0].index >= index {
    } else {
        let rest = calls.skip(1);
        assert forall|i: int, j: int| 0 <= i < j < rest.len() implies (#[trigger] rest[i]).index < (
        #[trigger] rest[j]).index by {
            assert(rest[i] == calls[i + 1]);
            assert(rest[j] == calls[j + 1]);
        }
        assert forall|i: int| 0 <= i < rest.len() implies (#[trigger] rest[i]).index
            < MAX_PROVIDER_TOOL_CALLS by {
            assert(rest[i] == calls[i + 1]);
        }
        lemma_slot(rest, index);
        assert forall|i: int| 0 <= i < slot(calls, index) implies (#[trigger] calls[i]).index < index by {
            if i > 0 {
                assert(calls[i] == rest[i - 1]);
            }
        }
        assert forall|i: int| slot(calls, index) <= i < calls.len() implies (#[trigger] calls[i]).index
            >= index by {
            assert(calls[i] == rest[i - 1]);
        }
    }
}

/// A piece in range keeps the calls in order.
proof fn lemma_merged_one_in_order(calls: Seq<DeltaView>, piece: DeltaView)
    requires
        calls_in_order(calls),
        piece.index < MAX_PROVIDER_TOOL_CALLS,
    ensures
        calls_in_order(merged_one(calls, piece)),
{
    lemma_slot(calls, piece.index);
    let p = slot(calls, piece.index);
    let after = merged_one(calls, piece);
    if p < calls.len() && calls[p].index == piece.index {
        assert forall|i: int| 0 <= i < after.len() implies (#[trigger] after[i]).index == calls[i].index by {}
    } else {
        assert forall|i: int| 0 <= i < after.len() implies (#[trigger] after[i]).index == (if i < p {
            calls[i].index
        } else if i == p {
            piece.index
        } else {
            calls[i - 1].index
        }) by {}
        assert forall|i: int, j: int| 0 <= i < j < after.len() implies (#[trigger] after[i]).index < (
        #[trigger] after[j]).index by {
            if i < p && j > p {
                assert(calls[i].index < piece.index);
                assert(calls[j - 1].index >= piece.index);
                assert(calls[i].index < calls[j - 1].index);
            } else if i == p {
                assert(calls[j - 1].index >= piece.index);
                assert(calls[p].index <= calls[j - 1].index);
            } else if j == p {
            } else if j < p {
                assert(calls[i].index < calls[j].index);
            } else {
                assert(calls[i - 1].index < calls[j - 1].index);
            }
        }
    }
}

/// Pieces without fault keep the calls in order.
proof fn lemma_merged_in_order(calls: Seq<DeltaView>, pieces: Seq<DeltaView>)
    requires
        calls_in_order(calls),
        pieces_fault(calls, pieces) is None,
    ensures
        calls_in_order(merged(calls, pieces)),
    decreases pieces.len(),
{
    if pieces.len() > 0 {
        lemma_merged_in_order(calls, pieces.drop_last());
        lemma_merged_one_in_order(merged(calls, pieces.drop_last()), pieces.last());
    }
}

/// A response holds no more tool calls than there are indices in range.
pub proof fn law_tool_calls_are_bounded(calls: Seq<DeltaView>)
    requires
        calls_in_order(calls),
    ensures
        calls.len() <= MAX_PROVIDER_TOOL_CALLS,
{
    if calls.len() > 0 {
        lemma_index_at_least(calls, calls.len() - 1);
    }
}

/// The call at a position has at least that index.
proof fn lemma_index_at_least(calls: Seq<DeltaView>, i: int)
    requires
        calls_in_order(calls),
        0 <= i < calls.len(),
    ensures
        calls[i].index >= i,
    decreases i,
{
    if i > 0 {
        lemma_index_at_least(calls, i - 1);
        assert(calls[i - 1].index < calls[i].index);
    }
}

/// The tool calls of a response, in the order of their indices.
#[derive(Debug)]
pub struct ToolCallTable {
    pub calls: Vec<PartialToolCall>,
}

impl View for ToolCallTable {
    type V = Seq<DeltaView>;

    open spec fn view(&self) -> Seq<DeltaView> {
        call_views(self.calls@)
    }
}

impl ToolCallTable {
    /// No tool call yet.
    pub fn new() -> (table: ToolCallTable)
        ensures
            table@ == Seq::<DeltaView>::empty(),
    {
        let table = ToolCallTable { calls: Vec::new() };
        assert(table@ =~= Seq::<DeltaView>::empty());
        table
    }

    /// How many calls at the front have an index below `index`.
    fn find(&self, index: u64) -> (p: usize)
        ensures
            p == slot(self@, index),
            p <= self@.len(),
    {
        let mut p: usize = 0;
        assert(self@.skip(0) =~= self@);
        while p < self.calls.len() && self.calls[p].index < index
            invariant
                p <= self@.len(),
                self@.len() == self.calls@.len(),
                slot(self@, index) == p + slot(self@.skip(p as int), index),
            decreases self.calls.len() - p,
        {
            proof {
                assert(self@.skip(p as int)[0] == self.calls@[p as int]@);
                assert(self@.skip(p as int).skip(1) =~= self@.skip(p + 1));
            }
            p += 1;
        }
        proof {
            if p < self@.len() {
                assert(self@.skip(p as int)[0] == self.calls@[p as int]@);
            }
        }
        p
    }

    /// Takes one piece of a tool call.
    pub fn merge(&mut self, piece: &ProviderToolCallDelta) -> (taken: Result<(), String>)
        requires
            calls_in_order(old(self)@),
        ensures
            calls_in_order(final(self)@),
            match taken {
                Ok(()) => piece_fault(old(self)@, piece@) is None && final(self)@ == merged_one(
                    old(self)@,
                    piece@,
                ),
                Err(e) => piece_fault(old(self)@, piece@) == Some(e@) && final(self)@ == old(self)@,
            },
    {
        if piece.index >= MAX_PROVIDER_TOOL_CALLS {
            return Err(
                text::concat3(
                    "provider tool-call index ",
                    text::decimal(piece.index).as_str(),
                    " is out of range",
                ),
            );
        }
        let p: usize = self.find(piece.index);
        let ghost before = self@;
        let ghost pv = piece@;
        proof {
            lemma_merged_one_in_order(before, pv);
        }
        if p < self.calls.len() && self.calls[p].index == piece.index {
            assert(before[p as int] == self.calls@[p as int]@);
            if let Some(fault) = over_bound(
                self.calls[p].arguments.as_str(),
                piece.arguments.as_str(),
                "tool-call arguments",
            ) {
                return Err(fault);
            }
            let held: PartialToolCall = self.calls.remove(p);
            let mut arguments: String = held.arguments;
            arguments.append(piece.arguments.as_str());
            let id: Option<String> = if piece.id.is_some() {
                text::copy_opt(&piece.id)
            } else {
                held.id
            };
            let name: Option<String> = if piece.name.is_some() {
                text::copy_opt(&piece.name)
            } else {
                held.name
            };
            self.calls.insert(p, PartialToolCall { index: held.index, id, name, arguments });
            assert(self@ =~= merged_one(before, pv));
        } else {
            let mut arguments: String = String::new();
            match push_bounded(&mut arguments, piece.arguments.as_str(), "tool-call arguments") {
                Ok(()) => {},
                Err(e) => {
                    return Err(e);
                },
            }
            self.calls.insert(
                p,
                PartialToolCall {
                    index: piece.index,
                    id: text::copy_opt(&piece.id),
                    name: text::copy_opt(&piece.name),
                    arguments,
                },
            );
            assert(self@ =~= merged_one(before, pv));
        }
        Ok(())
    }
}

/// A fault in the first pieces is the first fault of all of them.
proof fn lemma_early_piece_fault(calls: Seq<DeltaView>, pieces: Seq<DeltaView>, k: int)
    requires
        0 <= k <= pieces.len(),
        pieces_fault(calls, pieces.take(k)) is Some,
    ensures
        pieces_fault(calls, pieces) == pieces_fault(calls, pieces.take(k)),
    decreases pieces.len(),
{
    if k == pieces.len() {
        assert(pieces.take(k) =~= pieces);
    } else {
        assert(pieces.drop_last().take(k) =~= pieces.take(k));
        lemma_early_piece_fault(calls, pieces.drop_last(), k);
    }
}

impl ToolCallTable {
    /// Takes the pieces of a frame, in order. After an error the table holds
    /// the pieces before the faulty one.
    pub fn merge_all(&mut self, pieces: &Vec<ProviderToolCallDelta>) -> (taken: Result<(), String>)
        requires
            calls_in_order(old(self)@),
        ensures
            calls_in_order(final(self)@),
            match taken {
                Ok(()) => pieces_fault(old(self)@, provider::delta_views(pieces@)) is None && final(self)@
                    == merged(old(self)@, provider::delta_views(pieces@)),
                Err(e) => pieces_fault(old(self)@, provider::delta_views(pieces@)) == Some(e@),
            },
    {
        let ghost start = self@;
        let ghost views = provider::delta_views(pieces@);
        let mut i: usize = 0;
        while i < pieces.len()
            invariant
                i <= pieces@.len(),
                start == old(self)@,
                views == provider::delta_views(pieces@),
                calls_in_order(self@),
                self@ == merged(start, views.take(i as int)),
                pieces_fault(start, views.take(i as int)) is None,
            decreases pieces.len() - i,
        {
            proof {
                assert(views.take(i + 1).drop_last() =~= views.take(i as int));
                assert(views.take(i + 1).last() == pieces@[i as int]@);
            }
            match self.merge(&pieces[i]) {
                Ok(()) => {},
                Err(e) => {
                    proof {
                        lemma_early_piece_fault(start, views, i + 1);
                    }
                    return Err(e);
                },
            }
            i += 1;
        }
        assert(views.take(i as int) =~= views);
        Ok(())
    }
}

/// What a response has said so far.
#[derive(Debug)]
pub struct ResponseCapture {
    /// HTTP status of the response.
    pub upstream_status: u16,
    /// Whether the body is an event stream.
    pub is_sse: bool,
    /// Whether any byte has come.
    pub saw_chunk: bool,
    /// Bytes that have come, in all.
    pub captured_bytes: usize,
    /// Bytes that belong to no frame yet.
    pub buffer: Vec<u8>,
    pub message: String,
    pub reasoning: String,
    pub model: Option<String>,
    pub finish_reason: Option<String>,
    pub cost_usd_micros: u64,
    pub tool_calls: ToolCallTable,
    pub metrics: EventMetrics,
    /// Completion tokens that have been charged to the session.
    pub charged_completion_tokens: u64,
    pub last_completion_tokens: Option<u64>,
    pub last_prompt_tokens: Option<u64>,
    pub last_cached_tokens: Option<u64>,
    pub last_cost_usd_micros: Option<u64>,
}

/// A [`ResponseCapture`] by its contents.
#[verifier::ext_equal]
pub struct CaptureView {
    pub upstream_status: u16,
    pub is_sse: bool,
    pub saw_chunk: bool,
    pub captured_bytes: int,
    pub buffer: Seq<u8>,
    pub message: Seq<char>,
    pub reasoning: Seq<char>,
    pub model: Option<Seq<char>>,
    pub finish_reason: Option<Seq<char>>,
    pub cost_usd_micros: u64,
    pub tool_calls: Seq<DeltaView>,
    pub metrics: EventMetrics,
    pub charged: u64,
    pub last_completion: Option<u64>,
    pub last_prompt: Option<u64>,
    pub last_cached: Option<u64>,
    pub last_cost: Option<u64>,
}

impl View for ResponseCapture {
    type V = CaptureView;

    open spec fn view(&self) -> CaptureView {
        CaptureView {
            upstream_status: self.upstream_status,
            is_sse: self.is_sse,
            saw_chunk: self.saw_chunk,
            captured_bytes: self.captured_bytes as int,
            buffer: self.buffer@,
            message: self.message@,
            reasoning: self.reasoning@,
            model: text::opt_text(self.model),
            finish_reason: text::opt_text(self.finish_reason),
            cost_usd_micros: self.cost_usd_micros,
            tool_calls: self.tool_calls@,
            metrics: self.metrics,
            charged: self.charged_completion_tokens,
            last_completion: self.last_completion_tokens,
            last_prompt: self.last_prompt_tokens,
            last_cached: self.last_cached_tokens,
            last_cost: self.last_cost_usd_micros,
        }
    }
}

/// A count, zero where it is missing.
pub open spec fn or_zero(n: Option<u64>) -> u64 {
    match n {
        Some(n) => n,
        None => 0,
    }
}

/// The larger of two numbers.
pub open spec fn larger(a: u64, b: u64) -> u64 {
    if a >= b {
        a
    } else {
        b
    }
}

/// The larger of two reports of a count; a missing one changes nothing.
pub open spec fn larger_opt(previous: Option<u64>, current: Option<u64>) -> Option<u64> {
    match (previous, current) {
        (Some(p), Some(c)) => Some(larger(p, c)),
        (None, Some(c)) => Some(c),
        (p, None) => p,
    }
}

/// Whether an HTTP status stands for success.
pub open spec fn is_success(status: u16) -> bool {
    200 <= status < 300
}

impl CaptureView {
    /// What every capture keeps: its tool calls are in order, and no more
    /// completion tokens have been charged than have been counted.
    pub open spec fn wf(self) -> bool {
        &&& calls_in_order(self.tool_calls)
        &&& self.charged <= or_zero(self.metrics.completion_tokens)
    }

    /// What is wrong with the next frame, if anything is: the first fault in
    /// the order in which a frame is taken in.
    pub open spec fn fault(self, chunk: ChunkView) -> Option<Seq<char>> {
        let reported = or_zero(chunk.metrics.completion_tokens);
        let reasoning_fault = match chunk.reasoning {
            Some(reasoning) => bound_fault(self.reasoning, reasoning, "response reasoning"@),
            None => None,
        };
        if is_success(self.upstream_status) && !chunk.has_choices {
            Some("successful provider response has no choices array"@)
        } else if bound_fault(self.message, chunk.message, "response message"@) is Some {
            bound_fault(self.message, chunk.message, "response message"@)
        } else if reasoning_fault is Some {
            reasoning_fault
        } else if pieces_fault(self.tool_calls, chunk.deltas) is Some {
            pieces_fault(self.tool_calls, chunk.deltas)
        } else if chunk.usage_reported && regressed(self.last_prompt, chunk.metrics.prompt_tokens) {
            Some("provider "@ + "prompt tokens"@ + " regressed"@)
        } else if chunk.usage_reported && regressed(self.last_cached, chunk.metrics.cached_tokens) {
            Some("provider "@ + "cached tokens"@ + " regressed"@)
        } else if chunk.cost_reported && regressed(self.last_cost, Some(chunk.cost_usd_micros)) {
            Some("provider "@ + "cost"@ + " regressed"@)
        } else if chunk.usage_reported && reported < or_zero(self.last_completion) {
            Some("provider completion usage regressed"@)
        } else if !chunk.usage_reported && or_zero(self.metrics.completion_tokens) + reported
            > JCS_SAFE_MAX {
            Some("provider completion-token total exceeds JCS-safe bounds"@)
        } else {
            None
        }
    }

    /// How many completion tokens the next frame adds to the charge: what a
    /// reported running total has over the charge so far, or the count of a
    /// frame that reports no total.
    pub open spec fn charge(self, chunk: ChunkView) -> u64 {
        let reported = or_zero(chunk.metrics.completion_tokens);
        if !chunk.usage_reported {
            reported
        } else if reported > self.charged {
            (reported - self.charged) as u64
        } else {
            0
        }
    }

    /// The capture with the next frame taken in.
    pub open spec fn after(self, chunk: ChunkView) -> CaptureView {
        let reported = or_zero(chunk.metrics.completion_tokens);
        CaptureView {
            message: self.message + chunk.message,
            reasoning: match chunk.reasoning {
                Some(reasoning) => self.reasoning + reasoning,
                None => self.reasoning,
            },
            model: match self.model {
                Some(model) => Some(model),
                None => chunk.model_name,
            },
            finish_reason: latest_text(self.finish_reason, chunk.finish_reason),
            cost_usd_micros: larger(self.cost_usd_micros, chunk.cost_usd_micros),
            tool_calls: merged(self.tool_calls, chunk.deltas),
            metrics: EventMetrics {
                prompt_tokens: larger_opt(self.metrics.prompt_tokens, chunk.metrics.prompt_tokens),
                cached_tokens: larger_opt(self.metrics.cached_tokens, chunk.metrics.cached_tokens),
                completion_tokens: if chunk.usage_reported {
                    larger_opt(self.metrics.completion_tokens, Some(reported))
                } else {
                    Some((or_zero(self.metrics.completion_tokens) + reported) as u64)
                },
                ..self.metrics
            },
            charged: (self.charged + self.charge(chunk)) as u64,
            last_completion: if chunk.usage_reported {
                Some(reported)
            } else {
                self.last_completion
            },
            last_prompt: if chunk.usage_reported {
                latest(self.last_prompt, chunk.metrics.prompt_tokens)
            } else {
                self.last_prompt
            },
            last_cached: if chunk.usage_reported {
                latest(self.last_cached, chunk.metrics.cached_tokens)
            } else {
                self.last_cached
            },
            last_cost: if chunk.cost_reported {
                Some(chunk.cost_usd_micros)
            } else {
                self.last_cost
            },
            ..self
        }
    }
}

/// A capture before the first byte.
pub open spec fn fresh_capture(upstream_status: u16, is_sse: bool) -> CaptureView {
    CaptureView {
        upstream_status,
        is_sse,
        saw_chunk: false,
        captured_bytes: 0,
        buffer: Seq::empty(),
        message: Seq::empty(),
        reasoning: Seq::empty(),
        model: None,
        finish_reason: None,
        cost_usd_micros: 0,
        tool_calls: Seq::empty(),
        metrics: EventMetrics {
            prompt_tokens: None,
            completion_tokens: None,
            cached_tokens: None,
            pruned_tokens: None,
            pruning_ratio_millis: None,
        },
        charged: 0,
        last_completion: None,
        last_prompt: None,
        last_cached: None,
        last_cost: None,
    }
}

/// The larger of two reports of a count.
fn larger_of(previous: Option<u64>, current: Option<u64>) -> (n: Option<u64>)
    ensures
        n == larger_opt(previous, current),
{
    match current {
        None => previous,
        Some(c) => match previous {
            None => Some(c),
            Some(p) => {
                if p >= c {
                    Some(p)
                } else {
                    Some(c)
                }
            },
        },
    }
}

/// A count, zero where it is missing.
fn count_or_zero(n: Option<u64>) -> (m: u64)
    ensures
        m == or_zero(n),
{
    match n {
        Some(n) => n,
        None => 0,
    }
}

impl ResponseCapture {
    /// A capture before the first byte.
    pub fn new(upstream_status: u16, is_sse: bool) -> (capture: ResponseCapture)
        ensures
            capture@ == fresh_capture(upstream_status, is_sse),
            capture@.wf(),
    {
        ResponseCapture {
            upstream_status,
            is_sse,
            saw_chunk: false,
            captured_bytes: 0,
            buffer: Vec::new(),
            message: String::new(),
            reasoning: String::new(),
            model: None,
            finish_reason: None,
            cost_usd_micros: 0,
            tool_calls: ToolCallTable::new(),
            metrics: EventMetrics {
                prompt_tokens: None,
                completion_tokens: None,
                cached_tokens: None,
                pruned_tokens: None,
                pruning_ratio_millis: None,
            },
            charged_completion_tokens: 0,
            last_completion_tokens: None,
            last_prompt_tokens: None,
            last_cached_tokens: None,
            last_cost_usd_micros: None,
        }
    }

    /// Takes bytes off the network. They wait in the buffer until
    /// [`ResponseCapture::next_frame`] or [`ResponseCapture::flush`] takes
    /// them out; a response that has grown too long is refused.
    pub fn accept(&mut self, raw: &[u8]) -> (taken: Result<(), String>)
        ensures
            match taken {
                Ok(()) => old(self)@.captured_bytes + raw@.len() <= MAX_PROVIDER_CAPTURE_BYTES
                    && final(self)@ == (CaptureView {
                    saw_chunk: old(self)@.saw_chunk || raw@.len() > 0,
                    captured_bytes: old(self)@.captured_bytes + raw@.len(),
                    buffer: old(self)@.buffer + raw@,
                    ..old(self)@
                }),
                Err(e) => old(self)@.captured_bytes + raw@.len() > MAX_PROVIDER_CAPTURE_BYTES && e@ == (
                if old(self)@.captured_bytes + raw@.len() > usize::MAX {
                    "provider response size overflow"@
                } else {
                    "provider response exceeds 16777216 capture bytes"@
                }) && final(self)@ == (CaptureView {
                    saw_chunk: old(self)@.saw_chunk || raw@.len() > 0,
                    captured_bytes: if old(self)@.captured_bytes + raw@.len() > usize::MAX {
                        old(self)@.captured_bytes
                    } else {
                        old(self)@.captured_bytes + raw@.len()
                    },
                    ..old(self)@
                }),
            },
    {
        self.saw_chunk = self.saw_chunk || raw.len() > 0;
        match self.captured_bytes.checked_add(raw.len()) {
            Some(size) => {
                self.captured_bytes = size;
            },
            None => {
                return Err("provider response size overflow".to_owned());
            },
        }
        if self.captured_bytes > MAX_PROVIDER_CAPTURE_BYTES {
            return Err("provider response exceeds 16777216 capture bytes".to_owned());
        }
        let ghost before = self.buffer@;
        self.buffer.extend_from_slice(raw);
        assert(self.buffer@ =~= before + raw@);
        Ok(())
    }

    /// Takes the next complete event out of the buffer, as a text. There is
    /// none in a body that is no event stream, and none as long as the event
    /// is not complete; one that grows too long without its end is refused.
    pub fn next_frame(&mut self) -> (frame: Result<Option<String>, String>)
        ensures
            ({
                let before = old(self)@;
                let end = sse::frame_end(before.buffer);
                match frame {
                    Ok(Some(text)) => before.is_sse && end is Some && valid_utf8(before.buffer.take(end->0))
                        && text@ == decode_utf8(before.buffer.take(end->0)) && final(self)@ == (CaptureView {
                        buffer: before.buffer.skip(end->0),
                        ..before
                    }),
                    Ok(None) => (!before.is_sse || (end is None && before.buffer.len()
                        <= MAX_PROVIDER_FIELD_BYTES)) && final(self)@ == before,
                    Err(e) => before.is_sse && match end {
                        Some(n) => !valid_utf8(before.buffer.take(n)) && e@
                            == "provider SSE frame is not UTF-8: "@ + utf8_fault(before.buffer.take(n)) && final(self)@
                            == (CaptureView { buffer: before.buffer.skip(n), ..before }),
                        None => before.buffer.len() > MAX_PROVIDER_FIELD_BYTES && e@
                            == "unterminated provider SSE frame exceeds limit"@ && final(self)@ == before,
                    },
                }
            }),
    {
        if !self.is_sse {
            return Ok(None);
        }
        let ghost bytes = self.buffer@;
        match sse::sse_frame_end(self.buffer.as_slice()) {
            Some(end) => {
                proof {
                    sse::lemma_frame_end_in_buffer(bytes);
                }
                let rest: Vec<u8> = self.buffer.split_off(end);
                proof {
                    assert(self.buffer@ =~= bytes.take(end as int));
                    assert(rest@ =~= bytes.skip(end as int));
                }
                let read = text_of_bytes(self.buffer.as_slice());
                self.buffer = rest;
                match read {
                    Ok(text) => Ok(Some(text)),
                    Err(words) => Err(
                        text::concat2("provider SSE frame is not UTF-8: ", words.as_str()),
                    ),
                }
            },
            None => {
                if self.buffer.len() > MAX_PROVIDER_FIELD_BYTES {
                    Err("unterminated provider SSE frame exceeds limit".to_owned())
                } else {
                    Ok(None)
                }
            },
        }
    }

    /// Takes all that is left in the buffer, as one text; nothing, where
    /// nothing is left. The buffer is empty afterwards.
    pub fn flush(&mut self) -> (frame: Result<Option<String>, String>)
        ensures
            final(self)@ == (CaptureView { buffer: Seq::empty(), ..old(self)@ }),
            ({
                let bytes = old(self)@.buffer;
                match frame {
                    Ok(None) => bytes.len() == 0,
                    Ok(Some(text)) => bytes.len() > 0 && valid_utf8(bytes) && text@ == decode_utf8(bytes),
                    Err(e) => bytes.len() > 0 && !valid_utf8(bytes) && e@
                        == "provider response is not UTF-8: "@ + utf8_fault(bytes),
                }
            }),
    {
        if self.buffer.len() == 0 {
            assert(self.buffer@ =~= Seq::<u8>::empty());
            return Ok(None);
        }
        let read = text_of_bytes(self.buffer.as_slice());
        self.buffer = Vec::new();
        match read {
            Ok(text) => Ok(Some(text)),
            Err(words) => Err(text::concat2("provider response is not UTF-8: ", words.as_str())),
        }
    }

    /// Takes in what a frame says, and returns how many completion tokens it
    /// adds to the charge. After an error the capture is well formed, and holds
    /// a part of the frame that no one may rely on.
    pub fn absorb_chunk(&mut self, chunk: &ParsedProviderChunk) -> (charge: Result<u64, String>)
        requires
            old(self)@.wf(),
        ensures
            final(self)@.wf(),
            match charge {
                Ok(n) => old(self)@.fault(chunk@) is None && n == old(self)@.charge(chunk@) && final(self)@
                    == old(self)@.after(chunk@),
                Err(e) => old(self)@.fault(chunk@) == Some(e@),
            },
    {
        if 200 <= self.upstream_status && self.upstream_status < 300 && !chunk.has_choices {
            return Err("successful provider response has no choices array".to_owned());
        }
        match push_bounded(&mut self.message, chunk.message.as_str(), "response message") {
            Ok(()) => {},
            Err(e) => {
                return Err(e);
            },
        }
        if let Some(reasoning) = &chunk.reasoning {
            match push_bounded(&mut self.reasoning, reasoning.as_str(), "response reasoning") {
                Ok(()) => {},
                Err(e) => {
                    return Err(e);
                },
            }
        }
        if self.model.is_none() {
            self.model = text::copy_opt(&chunk.model_name);
        }
        if chunk.finish_reason.is_some() {
            self.finish_reason = text::copy_opt(&chunk.finish_reason);
        }
        if self.cost_usd_micros < chunk.cost_usd_micros {
            self.cost_usd_micros = chunk.cost_usd_micros;
        }
        match self.tool_calls.merge_all(&chunk.tool_call_deltas) {
            Ok(()) => {},
            Err(e) => {
                return Err(e);
            },
        }
        if chunk.usage_reported {
            match reject_metric_regression(
                "prompt tokens",
                &mut self.last_prompt_tokens,
                chunk.metrics.prompt_tokens,
            ) {
                Ok(()) => {},
                Err(e) => {
                    return Err(e);
                },
            }
            match reject_metric_regression(
                "cached tokens",
                &mut self.last_cached_tokens,
                chunk.metrics.cached_tokens,
            ) {
                Ok(()) => {},
                Err(e) => {
                    return Err(e);
                },
            }
        }
        if chunk.cost_reported {
            match reject_metric_regression("cost", &mut self.last_cost_usd_micros, Some(chunk.cost_usd_micros)) {
                Ok(()) => {},
                Err(e) => {
                    return Err(e);
                },
            }
        }
        self.metrics.prompt_tokens = larger_of(self.metrics.prompt_tokens, chunk.metrics.prompt_tokens);
        self.metrics.cached_tokens = larger_of(self.metrics.cached_tokens, chunk.metrics.cached_tokens);
        let reported: u64 = count_or_zero(chunk.metrics.completion_tokens);
        let charge: u64 = if chunk.usage_reported {
            if reported < count_or_zero(self.last_completion_tokens) {
                return Err("provider completion usage regressed".to_owned());
            }
            self.last_completion_tokens = Some(reported);
            self.metrics.completion_tokens = larger_of(self.metrics.completion_tokens, Some(reported));
            reported.saturating_sub(self.charged_completion_tokens)
        } else {
            let sum: u64 = match count_or_zero(self.metrics.completion_tokens).checked_add(reported) {
                Some(sum) => sum,
                None => {
                    return Err("provider completion-token total exceeds JCS-safe bounds".to_owned());
                },
            };
            if sum > JCS_SAFE_MAX {
                return Err("provider completion-token total exceeds JCS-safe bounds".to_owned());
            }
            self.metrics.completion_tokens = Some(sum);
            reported
        };
        self.charged_completion_tokens = self.charged_completion_tokens + charge;
        Ok(charge)
    }
}

/// Taking in a frame keeps a capture well formed, and moves the charge by
/// exactly what the frame is charged: no token is charged twice, and none
/// beyond what has been counted.
pub proof fn law_charge_follows_the_count(capture: CaptureView, chunk: ChunkView)
    requires
        capture.wf(),
        capture.fault(chunk) is None,
    ensures
        capture.after(chunk).charged == capture.charged + capture.charge(chunk),
        capture.after(chunk).wf(),
        chunk.usage_reported ==> capture.after(chunk).charged == larger(
            capture.charged,
            or_zero(chunk.metrics.completion_tokens),
        ),
{
    lemma_merged_in_order(capture.tool_calls, chunk.deltas);
}

/// A provider that reports the same running total again is charged nothing
/// for it.
pub proof fn law_repeated_usage_is_free(capture: CaptureView, chunk: ChunkView)
    requires
        capture.wf(),
        capture.fault(chunk) is None,
        chunk.usage_reported,
    ensures
        capture.after(chunk).charge(chunk) == 0,
{
}

/// A capture after a run of frames, each taken in behind the one before.
pub open spec fn after_all(start: CaptureView, chunks: Seq<ChunkView>) -> CaptureView
    decreases chunks.len(),
{
    if chunks.len() == 0 {
        start
    } else {
        after_all(start, chunks.drop_last()).after(chunks.last())
    }
}

/// Whether a run of frames is taken in without a fault.
pub open spec fn all_taken(start: CaptureView, chunks: Seq<ChunkView>) -> bool
    decreases chunks.len(),
{
    chunks.len() == 0 || (all_taken(start, chunks.drop_last()) && after_all(start, chunks.drop_last()).fault(
        chunks.last(),
    ) is None)
}

/// The texts of a run of frames, one behind the other.
pub open spec fn joined(texts: Seq<Seq<char>>) -> Seq<char>
    decreases texts.len(),
{
    if texts.len() == 0 {
        Seq::empty()
    } else {
        joined(texts.drop_last()) + texts.last()
    }
}

/// The cost of a response is the largest that any of its frames gives: it is
/// at least that of every frame, it is that of some frame, and it is zero
/// only if no frame gives a cost above zero.
pub proof fn law_the_largest_cost_counts(upstream_status: u16, is_sse: bool, chunks: Seq<ChunkView>)
    requires
        all_taken(fresh_capture(upstream_status, is_sse), chunks),
    ensures
        ({
            let cost = after_all(fresh_capture(upstream_status, is_sse), chunks).cost_usd_micros;
            &&& forall|i: int| 0 <= i < chunks.len() ==> (#[trigger] chunks[i]).cost_usd_micros <= cost
            &&& cost > 0 ==> exists|i: int| 0 <= i < chunks.len() && (#[trigger] chunks[i]).cost_usd_micros == cost
            &&& cost == 0 <==> forall|i: int| 0 <= i < chunks.len() ==> (#[trigger] chunks[i]).cost_usd_micros == 0
        }),
    decreases chunks.len(),
{
    if chunks.len() > 0 {
        let earlier = chunks.drop_last();
        law_the_largest_cost_counts(upstream_status, is_sse, earlier);
        let start = fresh_capture(upstream_status, is_sse);
        let before = after_all(start, earlier).cost_usd_micros;
        let cost = after_all(start, chunks).cost_usd_micros;
        assert(chunks[chunks.len() - 1] == chunks.last());
        assert forall|i: int| 0 <= i < chunks.len() implies (#[trigger] chunks[i]).cost_usd_micros <= cost by {
            if i < earlier.len() {
                assert(chunks[i] == earlier[i]);
            }
        }
        if cost > 0 {
            if cost == before {
                let i = choose|i: int| 0 <= i < earlier.len() && (#[trigger] earlier[i]).cost_usd_micros == before;
                assert(chunks[i] == earlier[i]);
            } else {
                assert(chunks[chunks.len() - 1].cost_usd_micros == cost);
            }
        }
    }
}

/// The cost of a response whose frames give a cost only where they report
/// one is the last that was reported: a provider's account may not go down.
pub proof fn law_the_last_reported_cost_counts(upstream_status: u16, is_sse: bool, chunks: Seq<ChunkView>, last: int)
    requires
        all_taken(fresh_capture(upstream_status, is_sse), chunks),
        forall|i: int| 0 <= i < chunks.len() && !(#[trigger] chunks[i]).cost_reported ==> chunks[i].cost_usd_micros == 0,
        0 <= last < chunks.len(),
        chunks[last].cost_reported,
        forall|i: int| last < i < chunks.len() ==> !(#[trigger] chunks[i]).cost_reported,
    ensures
        after_all(fresh_capture(upstream_status, is_sse), chunks).cost_usd_micros == chunks[last].cost_usd_micros,
{
    lemma_reported_cost(upstream_status, is_sse, chunks);
    lemma_last_report(upstream_status, is_sse, chunks, last);
}

/// As long as only reported costs count, the cost is the last report.
proof fn lemma_reported_cost(upstream_status: u16, is_sse: bool, chunks: Seq<ChunkView>)
    requires
        all_taken(fresh_capture(upstream_status, is_sse), chunks),
        forall|i: int| 0 <= i < chunks.len() && !(#[trigger] chunks[i]).cost_reported ==> chunks[i].cost_usd_micros == 0,
    ensures
        ({
            let end = after_all(fresh_capture(upstream_status, is_sse), chunks);
            end.cost_usd_micros == or_zero(end.last_cost)
        }),
    decreases chunks.len(),
{
    if chunks.len() > 0 {
        let earlier = chunks.drop_last();
        assert forall|i: int| 0 <= i < earlier.len() && !(#[trigger] earlier[i]).cost_reported implies earlier[i].cost_usd_micros
            == 0 by {
            assert(earlier[i] == chunks[i]);
        }
        assert(chunks[chunks.len() - 1] == chunks.last());
        lemma_reported_cost(upstream_status, is_sse, earlier);
    }
}

/// What a capture remembers as the last reported cost is just that.
proof fn lemma_last_report(upstream_status: u16, is_sse: bool, chunks: Seq<ChunkView>, last: int)
    requires
        0 <= last < chunks.len(),
        chunks[last].cost_reported,
        forall|i: int| last < i < chunks.len() ==> !(#[trigger] chunks[i]).cost_reported,
    ensures
        after_all(fresh_capture(upstream_status, is_sse), chunks).last_cost == Some(chunks[last].cost_usd_micros),
    decreases chunks.len(),
{
    assert(chunks[chunks.len() - 1] == chunks.last());
    if last < chunks.len() - 1 {
        let earlier = chunks.drop_last();
        assert forall|i: int| last < i < earlier.len() implies !(#[trigger] earlier[i]).cost_reported by {
            assert(earlier[i] == chunks[i]);
        }
        lemma_last_report(upstream_status, is_sse, earlier, last);
    }
}

/// What a response says is what its frames say, one behind the other: the
/// message and the reasoning, whole and in order. Its status and its kind are
/// those that it came with.
pub proof fn law_frames_join_to_the_response(upstream_status: u16, is_sse: bool, chunks: Seq<ChunkView>)
    ensures
        ({
            let end = after_all(fresh_capture(upstream_status, is_sse), chunks);
            &&& end.message == joined(chunks.map_values(|c: ChunkView| c.message))
            &&& end.reasoning == joined(
                chunks.map_values(
                    |c: ChunkView|
                        match c.reasoning {
                            Some(reasoning) => reasoning,
                            None => Seq::empty(),
                        },
                ),
            )
            &&& end.upstream_status == upstream_status
            &&& end.is_sse == is_sse
        }),
    decreases chunks.len(),
{
    let said = chunks.map_values(|c: ChunkView| c.message);
    let thought = chunks.map_values(
        |c: ChunkView|
            match c.reasoning {
                Some(reasoning) => reasoning,
                None => Seq::empty(),
            },
    );
    if chunks.len() > 0 {
        let earlier = chunks.drop_last();
        law_frames_join_to_the_response(upstream_status, is_sse, earlier);
        assert(said.drop_last() =~= earlier.map_values(|c: ChunkView| c.message));
        assert(thought.drop_last() =~= earlier.map_values(
            |c: ChunkView|
                match c.reasoning {
                    Some(reasoning) => reasoning,
                    None => Seq::empty(),
                },
        ));
        assert(said.last() == chunks.last().message);
        if chunks.last().reasoning is None {
            let before = after_all(fresh_capture(upstream_status, is_sse), earlier).reasoning;
            assert(before + Seq::<char>::empty() =~= before);
        }
    }
}

/// A response is of the model that its frames name first, and ends for the
/// reason that they give last.
pub proof fn law_the_first_model_and_the_last_reason_count(upstream_status: u16, is_sse: bool, chunks: Seq<ChunkView>)
    ensures
        ({
            let end = after_all(fresh_capture(upstream_status, is_sse), chunks);
            &&& end.model is None <==> forall|i: int| 0 <= i < chunks.len() ==> (#[trigger] chunks[i]).model_name is None
            &&& end.model is Some ==> exists|i: int|
                0 <= i < chunks.len() && (#[trigger] chunks[i]).model_name == end.model && forall|j: int|
                    0 <= j < i ==> (#[trigger] chunks[j]).model_name is None
            &&& end.finish_reason is None <==> forall|i: int|
                0 <= i < chunks.len() ==> (#[trigger] chunks[i]).finish_reason is None
            &&& end.finish_reason is Some ==> exists|i: int|
                0 <= i < chunks.len() && (#[trigger] chunks[i]).finish_reason == end.finish_reason && forall|j: int|
                    i < j < chunks.len() ==> (#[trigger] chunks[j]).finish_reason is None
        }),
    decreases chunks.len(),
{
    if chunks.len() > 0 {
        let earlier = chunks.drop_last();
        law_the_first_model_and_the_last_reason_count(upstream_status, is_sse, earlier);
        let start = fresh_capture(upstream_status, is_sse);
        let before = after_all(start, earlier);
        let end = after_all(start, chunks);
        assert(chunks[chunks.len() - 1] == chunks.last());
        assert(forall|i: int| 0 <= i < earlier.len() ==> #[trigger] chunks[i] == earlier[i]);
        assert(forall|i: int| 0 <= i < earlier.len() ==> chunks[i] == #[trigger] earlier[i]);
        if before.model is Some {
            let i = choose|i: int|
                0 <= i < earlier.len() && (#[trigger] earlier[i]).model_name == before.model && forall|j: int|
                    0 <= j < i ==> (#[trigger] earlier[j]).model_name is None;
            assert(chunks[i].model_name == end.model);
            assert(forall|j: int| 0 <= j < i ==> (#[trigger] chunks[j]).model_name is None);
        } else if end.model is Some {
            assert(chunks[chunks.len() - 1].model_name == end.model);
        }
        if chunks.last().finish_reason is Some {
            assert(chunks[chunks.len() - 1].finish_reason == end.finish_reason);
        } else if before.finish_reason is Some {
            let i = choose|i: int|
                0 <= i < earlier.len() && (#[trigger] earlier[i]).finish_reason == before.finish_reason && forall|j: int|
                    i < j < earlier.len() ==> (#[trigger] earlier[j]).finish_reason is None;
            assert(chunks[i].finish_reason == end.finish_reason);
            assert(forall|j: int| i < j < chunks.len() ==> (#[trigger] chunks[j]).finish_reason is None);
        }
    }
}

/// Whether a count is the largest of the reports of it, and missing where
/// there is none.
pub open spec fn is_largest(count: Option<u64>, reports: Seq<Option<u64>>) -> bool {
    match count {
        None => forall|i: int| 0 <= i < reports.len() ==> (#[trigger] reports[i]) is None,
        Some(n) => {
            &&& reports.contains(Some(n))
            &&& forall|i: int| 0 <= i < reports.len() ==> ((#[trigger] reports[i]) matches Some(m) ==> m <= n)
        },
    }
}

/// One more report keeps a count the largest.
proof fn lemma_largest(before: Option<u64>, reports: Seq<Option<u64>>)
    requires
        reports.len() > 0,
        is_largest(before, reports.drop_last()),
    ensures
        is_largest(larger_opt(before, reports.last()), reports),
{
    let earlier = reports.drop_last();
    let after = larger_opt(before, reports.last());
    assert(reports[reports.len() - 1] == reports.last());
    assert(forall|i: int| 0 <= i < earlier.len() ==> #[trigger] reports[i] == earlier[i]);
    if let Some(n) = after {
        if after == before {
            let i = choose|i: int| 0 <= i < earlier.len() && earlier[i] == Some(n);
            assert(reports[i] == Some(n));
        } else {
            assert(reports[reports.len() - 1] == Some(n));
        }
    }
}

/// The prompt and the cached tokens of a response are the largest that its
/// frames report, and missing where none does.
pub proof fn law_the_largest_prompt_counts(upstream_status: u16, is_sse: bool, chunks: Seq<ChunkView>)
    ensures
        ({
            let end = after_all(fresh_capture(upstream_status, is_sse), chunks).metrics;
            &&& is_largest(end.prompt_tokens, chunks.map_values(|c: ChunkView| c.metrics.prompt_tokens))
            &&& is_largest(end.cached_tokens, chunks.map_values(|c: ChunkView| c.metrics.cached_tokens))
            &&& end.pruned_tokens is None && end.pruning_ratio_millis is None
        }),
    decreases chunks.len(),
{
    let prompts = chunks.map_values(|c: ChunkView| c.metrics.prompt_tokens);
    let cached = chunks.map_values(|c: ChunkView| c.metrics.cached_tokens);
    if chunks.len() > 0 {
        let earlier = chunks.drop_last();
        law_the_largest_prompt_counts(upstream_status, is_sse, earlier);
        let before = after_all(fresh_capture(upstream_status, is_sse), earlier).metrics;
        assert(prompts.drop_last() =~= earlier.map_values(|c: ChunkView| c.metrics.prompt_tokens));
        assert(cached.drop_last() =~= earlier.map_values(|c: ChunkView| c.metrics.cached_tokens));
        lemma_largest(before.prompt_tokens, prompts);
        lemma_largest(before.cached_tokens, cached);
    }
}

/// The completion tokens that the frames of a run count, added up.
pub open spec fn completions(chunks: Seq<ChunkView>) -> int
    decreases chunks.len(),
{
    if chunks.len() == 0 {
        0
    } else {
        completions(chunks.drop_last()) + or_zero(chunks.last().metrics.completion_tokens)
    }
}

/// The tokens that the frames of a run were charged, added up.
pub open spec fn charges(start: CaptureView, chunks: Seq<ChunkView>) -> int
    decreases chunks.len(),
{
    if chunks.len() == 0 {
        0
    } else {
        charges(start, chunks.drop_last()) + after_all(start, chunks.drop_last()).charge(chunks.last())
    }
}

/// A response is charged what it completes, whichever way the provider
/// counts: where every frame reports a running total, the last total; where
/// none does, the sum of what the frames count. The charges of the single
/// frames add up to that, and the count on record is the same.
pub proof fn law_completions_are_charged_once(upstream_status: u16, is_sse: bool, chunks: Seq<ChunkView>)
    requires
        all_taken(fresh_capture(upstream_status, is_sse), chunks),
        chunks.len() > 0,
    ensures
        ({
            let start = fresh_capture(upstream_status, is_sse);
            let end = after_all(start, chunks);
            &&& charges(start, chunks) == end.charged
            &&& (forall|i: int| 0 <= i < chunks.len() ==> (#[trigger] chunks[i]).usage_reported) ==> {
                &&& end.charged == or_zero(chunks.last().metrics.completion_tokens)
                &&& end.metrics.completion_tokens == Some(end.charged)
            }
            &&& (forall|i: int| 0 <= i < chunks.len() ==> !(#[trigger] chunks[i]).usage_reported) ==> {
                &&& end.charged == completions(chunks)
                &&& end.metrics.completion_tokens == Some(end.charged)
                &&& end.charged <= JCS_SAFE_MAX
            }
        }),
    decreases chunks.len(),
{
    let start = fresh_capture(upstream_status, is_sse);
    let earlier = chunks.drop_last();
    let before = after_all(start, earlier);
    assert(chunks[chunks.len() - 1] == chunks.last());
    lemma_captures_stay_well_formed(upstream_status, is_sse, chunks);
    lemma_captures_stay_well_formed(upstream_status, is_sse, earlier);
    law_charge_follows_the_count(before, chunks.last());
    assert(forall|i: int| 0 <= i < earlier.len() ==> #[trigger] earlier[i] == chunks[i]);
    if earlier.len() > 0 {
        law_completions_are_charged_once(upstream_status, is_sse, earlier);
    } else {
        assert(earlier =~= Seq::empty());
        assert(before == start);
    }
    if forall|i: int| 0 <= i < chunks.len() ==> (#[trigger] chunks[i]).usage_reported {
        lemma_totals_are_charged(upstream_status, is_sse, chunks);
    }
    if forall|i: int| 0 <= i < chunks.len() ==> !(#[trigger] chunks[i]).usage_reported {
        lemma_counts_are_charged(upstream_status, is_sse, chunks);
    }
}

/// Where every frame reports a running total, the last is charged.
proof fn lemma_totals_are_charged(upstream_status: u16, is_sse: bool, chunks: Seq<ChunkView>)
    requires
        all_taken(fresh_capture(upstream_status, is_sse), chunks),
        forall|i: int| 0 <= i < chunks.len() ==> (#[trigger] chunks[i]).usage_reported,
    ensures
        ({
            let end = after_all(fresh_capture(upstream_status, is_sse), chunks);
            &&& end.charged == or_zero(end.last_completion)
            &&& chunks.len() > 0 ==> end.charged == or_zero(chunks.last().metrics.completion_tokens)
            &&& chunks.len() > 0 ==> end.metrics.completion_tokens == Some(end.charged)
            &&& chunks.len() == 0 ==> end.metrics.completion_tokens is None
        }),
    decreases chunks.len(),
{
    if chunks.len() > 0 {
        let earlier = chunks.drop_last();
        assert(forall|i: int| 0 <= i < earlier.len() ==> #[trigger] earlier[i] == chunks[i]);
        assert(chunks[chunks.len() - 1] == chunks.last());
        lemma_totals_are_charged(upstream_status, is_sse, earlier);
    }
}

/// Where no frame reports a running total, what they count is charged.
proof fn lemma_counts_are_charged(upstream_status: u16, is_sse: bool, chunks: Seq<ChunkView>)
    requires
        all_taken(fresh_capture(upstream_status, is_sse), chunks),
        forall|i: int| 0 <= i < chunks.len() ==> !(#[trigger] chunks[i]).usage_reported,
    ensures
        ({
            let end = after_all(fresh_capture(upstream_status, is_sse), chunks);
            &&& end.charged == completions(chunks)
            &&& end.charged == or_zero(end.metrics.completion_tokens)
            &&& chunks.len() > 0 ==> end.metrics.completion_tokens is Some
            &&& end.charged <= JCS_SAFE_MAX
        }),
    decreases chunks.len(),
{
    if chunks.len() > 0 {
        let earlier = chunks.drop_last();
        assert(forall|i: int| 0 <= i < earlier.len() ==> #[trigger] earlier[i] == chunks[i]);
        assert(chunks[chunks.len() - 1] == chunks.last());
        lemma_counts_are_charged(upstream_status, is_sse, earlier);
    }
}

/// A run of frames keeps a capture well formed.
proof fn lemma_captures_stay_well_formed(upstream_status: u16, is_sse: bool, chunks: Seq<ChunkView>)
    requires
        all_taken(fresh_capture(upstream_status, is_sse), chunks),
    ensures
        after_all(fresh_capture(upstream_status, is_sse), chunks).wf(),
    decreases chunks.len(),
{
    if chunks.len() > 0 {
        lemma_captures_stay_well_formed(upstream_status, is_sse, chunks.drop_last());
        law_charge_follows_the_count(after_all(fresh_capture(upstream_status, is_sse), chunks.drop_last()), chunks.last());
    }
}

/// A successful response needs choices, no account of the provider may go
/// down, and no text may grow beyond its bound: a frame that is taken in
/// keeps to all of that.
pub proof fn law_faulty_frames_are_refused(capture: CaptureView, chunk: ChunkView)
    requires
        capture.fault(chunk) is None,
    ensures
        200 <= capture.upstream_status < 300 ==> chunk.has_choices,
        text::byte_len(capture.message) + text::byte_len(chunk.message) <= 8388608,
        chunk.reasoning matches Some(reasoning) ==> text::byte_len(capture.reasoning) + text::byte_len(reasoning)
            <= 8388608,
        chunk.usage_reported && capture.last_prompt is Some && chunk.metrics.prompt_tokens is Some
            ==> capture.last_prompt->0 <= chunk.metrics.prompt_tokens->0,
        chunk.usage_reported && capture.last_cached is Some && chunk.metrics.cached_tokens is Some
            ==> capture.last_cached->0 <= chunk.metrics.cached_tokens->0,
        chunk.usage_reported && capture.last_completion is Some ==> chunk.metrics.completion_tokens is Some
            || capture.last_completion->0 == 0,
        chunk.usage_reported && capture.last_completion is Some && chunk.metrics.completion_tokens is Some
            ==> capture.last_completion->0 <= chunk.metrics.completion_tokens->0,
        chunk.cost_reported && capture.last_cost is Some ==> capture.last_cost->0 <= chunk.cost_usd_micros,
{
}

/// A frame that keeps to the bounds and lets no account go down is taken in.
pub proof fn law_sound_frames_are_taken(capture: CaptureView, chunk: ChunkView)
    requires
        chunk.has_choices || !(200 <= capture.upstream_status < 300),
        text::byte_len(capture.message) + text::byte_len(chunk.message) <= 8388608,
        chunk.reasoning matches Some(reasoning) ==> text::byte_len(capture.reasoning) + text::byte_len(reasoning)
            <= 8388608,
        chunk.deltas.len() == 0,
        !chunk.usage_reported && !chunk.cost_reported,
        or_zero(capture.metrics.completion_tokens) + or_zero(chunk.metrics.completion_tokens) <= 9007199254740991,
    ensures
        capture.fault(chunk) is None,
{
}

/// The arguments that the pieces of one tool call make, one behind the
/// other.
pub open spec fn arguments_at(pieces: Seq<DeltaView>, index: u64) -> Seq<char>
    decreases pieces.len(),
{
    if pieces.len() == 0 {
        Seq::empty()
    } else if pieces.last().index == index {
        arguments_at(pieces.drop_last(), index) + pieces.last().arguments
    } else {
        arguments_at(pieces.drop_last(), index)
    }
}

/// The last id that the pieces of one tool call give.
pub open spec fn id_at(pieces: Seq<DeltaView>, index: u64) -> Option<Seq<char>>
    decreases pieces.len(),
{
    if pieces.len() == 0 {
        None
    } else if pieces.last().index == index && pieces.last().id is Some {
        pieces.last().id
    } else {
        id_at(pieces.drop_last(), index)
    }
}

/// The last name that the pieces of one tool call give.
pub open spec fn name_at(pieces: Seq<DeltaView>, index: u64) -> Option<Seq<char>>
    decreases pieces.len(),
{
    if pieces.len() == 0 {
        None
    } else if pieces.last().index == index && pieces.last().name is Some {
        pieces.last().name
    } else {
        name_at(pieces.drop_last(), index)
    }
}

/// The tool calls of a response are put together from their pieces: there is
/// a call for every index that a piece names and no other, in the order of
/// the indices, each with the arguments of its pieces, one behind the other,
/// and with the id and the name that they give last.
pub proof fn law_tool_calls_are_put_together(pieces: Seq<DeltaView>)
    requires
        forall|i: int| 0 <= i < pieces.len() ==> (#[trigger] pieces[i]).index < MAX_PROVIDER_TOOL_CALLS,
    ensures
        ({
            let calls = merged(Seq::empty(), pieces);
            &&& forall|i: int, j: int|
                0 <= i < j < calls.len() ==> (#[trigger] calls[i]).index < (#[trigger] calls[j]).index
            &&& forall|k: int| 0 <= k < pieces.len() ==> has_call(calls, (#[trigger] pieces[k]).index)
            &&& forall|i: int|
                0 <= i < calls.len() ==> {
                    let call = #[trigger] calls[i];
                    &&& has_call(pieces, call.index)
                    &&& call.arguments == arguments_at(pieces, call.index)
                    &&& call.id == id_at(pieces, call.index)
                    &&& call.name == name_at(pieces, call.index)
                }
        }),
    decreases pieces.len(),
{
    if pieces.len() > 0 {
        let earlier = pieces.drop_last();
        let piece = pieces.last();
        assert(forall|k: int| 0 <= k < earlier.len() ==> #[trigger] earlier[k] == pieces[k]);
        assert(pieces[pieces.len() - 1] == piece);
        law_tool_calls_are_put_together(earlier);
        lemma_pieces_keep_the_order(earlier);
        let before = merged(Seq::empty(), earlier);
        let calls = merged(Seq::empty(), pieces);
        lemma_slot(before, piece.index);
        lemma_merged_one_in_order(before, piece);
        let p = slot(before, piece.index);
        let hit = p < before.len() && before[p].index == piece.index;
        if !hit {
            assert(!has_call(before, piece.index)) by {
                if has_call(before, piece.index) {
                    let i = choose|i: int| 0 <= i < before.len() && (#[trigger] before[i]).index == piece.index;
                    assert(i >= p);
                    if i > p {
                        assert(before[p].index < before[i].index);
                    }
                }
            }
            assert(!has_call(earlier, piece.index)) by {
                if has_call(earlier, piece.index) {
                    let k = choose|k: int| 0 <= k < earlier.len() && (#[trigger] earlier[k]).index == piece.index;
                    assert(has_call(before, earlier[k].index));
                }
            }
            lemma_unnamed_calls_are_empty(earlier, piece.index);
        }
        assert forall|i: int| 0 <= i < calls.len() implies {
            let call = #[trigger] calls[i];
            &&& has_call(pieces, call.index)
            &&& call.arguments == arguments_at(pieces, call.index)
            &&& call.id == id_at(pieces, call.index)
            &&& call.name == name_at(pieces, call.index)
        } by {
            let call = calls[i];
            if i == p {
                assert(call.index == piece.index);
                assert(has_call(pieces, piece.index));
            } else {
                let old_at = if hit || i < p {
                    i
                } else {
                    i - 1
                };
                assert(call == before[old_at]);
                assert(call.index != piece.index) by {
                    if i < p {
                        assert(before[i].index < piece.index);
                    } else if hit {
                        assert(before[p].index < before[i].index);
                    }
                }
                let k = choose|k: int| 0 <= k < earlier.len() && (#[trigger] earlier[k]).index == call.index;
                assert(pieces[k].index == call.index);
            }
        }
        assert forall|k: int| 0 <= k < pieces.len() implies has_call(calls, (#[trigger] pieces[k]).index) by {
            if pieces[k].index == piece.index {
                assert(calls[p].index == piece.index);
            } else {
                assert(has_call(before, earlier[k].index));
                let i = choose|i: int| 0 <= i < before.len() && (#[trigger] before[i]).index == pieces[k].index;
                let new_at = if hit || i < p {
                    i
                } else {
                    i + 1
                };
                assert(calls[new_at] == before[i]);
            }
        }
    }
}

/// Whether one of the calls, or of the pieces, has this index.
pub open spec fn has_call(calls: Seq<DeltaView>, index: u64) -> bool {
    exists|i: int| 0 <= i < calls.len() && (#[trigger] calls[i]).index == index
}

/// Pieces in range keep the calls in order.
proof fn lemma_pieces_keep_the_order(pieces: Seq<DeltaView>)
    requires
        forall|i: int| 0 <= i < pieces.len() ==> (#[trigger] pieces[i]).index < MAX_PROVIDER_TOOL_CALLS,
    ensures
        calls_in_order(merged(Seq::empty(), pieces)),
    decreases pieces.len(),
{
    if pieces.len() > 0 {
        let earlier = pieces.drop_last();
        assert(forall|k: int| 0 <= k < earlier.len() ==> #[trigger] earlier[k] == pieces[k]);
        assert(pieces[pieces.len() - 1] == pieces.last());
        lemma_pieces_keep_the_order(earlier);
        lemma_merged_one_in_order(merged(Seq::empty(), earlier), pieces.last());
    }
}

/// A call that no piece names has nothing.
proof fn lemma_unnamed_calls_are_empty(pieces: Seq<DeltaView>, index: u64)
    requires
        !has_call(pieces, index),
    ensures
        arguments_at(pieces, index) == Seq::<char>::empty(),
        id_at(pieces, index) is None,
        name_at(pieces, index) is None,
    decreases pieces.len(),
{
    if pieces.len() > 0 {
        let earlier = pieces.drop_last();
        assert(pieces[pieces.len() - 1].index != index);
        if has_call(earlier, index) {
            let k = choose|k: int| 0 <= k < earlier.len() && (#[trigger] earlier[k]).index == index;
            assert(pieces[k].index == index);
        }
        lemma_unnamed_calls_are_empty(earlier, index);
    }
}

/// The pieces of a run of frames, in order.
pub open spec fn all_pieces(chunks: Seq<ChunkView>) -> Seq<DeltaView>
    decreases chunks.len(),
{
    if chunks.len() == 0 {
        Seq::empty()
    } else {
        all_pieces(chunks.drop_last()) + chunks.last().deltas
    }
}

/// Pieces may be taken frame by frame or all at once.
proof fn lemma_merged_in_parts(calls: Seq<DeltaView>, first: Seq<DeltaView>, second: Seq<DeltaView>)
    ensures
        merged(calls, first + second) == merged(merged(calls, first), second),
    decreases second.len(),
{
    if second.len() == 0 {
        assert(first + second =~= first);
    } else {
        lemma_merged_in_parts(calls, first, second.drop_last());
        assert((first + second).drop_last() =~= first + second.drop_last());
    }
}

/// It does not matter to the tool calls of a response how their pieces are
/// spread over the frames.
pub proof fn law_frames_do_not_part_tool_calls(upstream_status: u16, is_sse: bool, chunks: Seq<ChunkView>)
    ensures
        after_all(fresh_capture(upstream_status, is_sse), chunks).tool_calls == merged(Seq::empty(), all_pieces(chunks)),
    decreases chunks.len(),
{
    if chunks.len() > 0 {
        law_frames_do_not_part_tool_calls(upstream_status, is_sse, chunks.drop_last());
        lemma_merged_in_parts(Seq::empty(), all_pieces(chunks.drop_last()), chunks.last().deltas);
    }
}

/// An account that stays what it was, or grows, is taken in, and so are the
/// pieces of tool calls whose index is in range and whose arguments keep to
/// their bound.
pub proof fn law_steady_accounts_are_taken(capture: CaptureView, chunk: ChunkView)
    requires
        chunk.has_choices || !(200 <= capture.upstream_status < 300),
        text::byte_len(capture.message) + text::byte_len(chunk.message) <= 8388608,
        chunk.reasoning matches Some(reasoning) ==> text::byte_len(capture.reasoning) + text::byte_len(reasoning)
            <= 8388608,
        forall|i: int| 0 <= i < chunk.deltas.len() ==> (#[trigger] chunk.deltas[i]).index < 128,
        forall|i: int|
            0 <= i < chunk.deltas.len() ==> text::byte_len(
                call_before(merged(capture.tool_calls, chunk.deltas.take(i)), (#[trigger] chunk.deltas[i]).index).arguments,
            ) + text::byte_len(chunk.deltas[i].arguments) <= 8388608,
        chunk.usage_reported && capture.last_prompt is Some && chunk.metrics.prompt_tokens is Some
            ==> capture.last_prompt->0 <= chunk.metrics.prompt_tokens->0,
        chunk.usage_reported && capture.last_cached is Some && chunk.metrics.cached_tokens is Some
            ==> capture.last_cached->0 <= chunk.metrics.cached_tokens->0,
        chunk.usage_reported && capture.last_completion is Some ==> chunk.metrics.completion_tokens is Some
            && capture.last_completion->0 <= chunk.metrics.completion_tokens->0,
        chunk.cost_reported && capture.last_cost is Some ==> capture.last_cost->0 <= chunk.cost_usd_micros,
        !chunk.usage_reported ==> or_zero(capture.metrics.completion_tokens) + or_zero(chunk.metrics.completion_tokens)
            <= 9007199254740991,
    ensures
        capture.fault(chunk) is None,
{
    lemma_pieces_in_bounds_are_taken(capture.tool_calls, chunk.deltas);
}

/// Pieces that are in range and keep to their bound have no fault.
proof fn lemma_pieces_in_bounds_are_taken(calls: Seq<DeltaView>, pieces: Seq<DeltaView>)
    requires
        forall|i: int| 0 <= i < pieces.len() ==> (#[trigger] pieces[i]).index < 128,
        forall|i: int|
            0 <= i < pieces.len() ==> text::byte_len(
                call_before(merged(calls, pieces.take(i)), (#[trigger] pieces[i]).index).arguments,
            ) + text::byte_len(pieces[i].arguments) <= 8388608,
    ensures
        pieces_fault(calls, pieces) is None,
    decreases pieces.len(),
{
    if pieces.len() > 0 {
        let front = pieces.drop_last();
        assert forall|i: int| 0 <= i < front.len() implies (#[trigger] front[i]).index < 128 && text::byte_len(
            call_before(merged(calls, front.take(i)), front[i].index).arguments,
        ) + text::byte_len(front[i].arguments) <= 8388608 by {
            assert(front[i] == pieces[i]);
            assert(front.take(i) =~= pieces.take(i));
        }
        lemma_pieces_in_bounds_are_taken(calls, front);
        assert(pieces.take(pieces.len() - 1) =~= front);
        assert(pieces[pieces.len() - 1] == pieces.last());
    }
}

/// A frame that is refused is refused for the first thing that is wrong with
/// it.
pub proof fn law_refused_frames_are_told_why(capture: CaptureView, chunk: ChunkView)
    ensures
        200 <= capture.upstream_status < 300 && !chunk.has_choices ==> capture.fault(chunk) == Some(
            "successful provider response has no choices array"@,
        ),
        (200 <= capture.upstream_status < 300 ==> chunk.has_choices) && 8388608 < text::byte_len(capture.message)
            + text::byte_len(chunk.message) <= usize::MAX ==> capture.fault(chunk) == Some(
            "response message"@ + " exceeds 8388608 bytes"@,
        ),
        text::byte_len(capture.message) + text::byte_len(chunk.message) <= 8388608 && (200 <= capture.upstream_status < 300
            ==> chunk.has_choices) && chunk.reasoning is None && chunk.deltas.len() == 0 ==> {
            let quiet_prompt = !(capture.last_prompt is Some && chunk.metrics.prompt_tokens is Some
                && chunk.metrics.prompt_tokens->0 < capture.last_prompt->0);
            let quiet_cached = !(capture.last_cached is Some && chunk.metrics.cached_tokens is Some
                && chunk.metrics.cached_tokens->0 < capture.last_cached->0);
            let quiet_cost = !(chunk.cost_reported && capture.last_cost is Some && chunk.cost_usd_micros
                < capture.last_cost->0);
            &&& chunk.usage_reported && !quiet_prompt ==> capture.fault(chunk) == Some(
                "provider "@ + "prompt tokens"@ + " regressed"@,
            )
            &&& chunk.usage_reported && quiet_prompt && !quiet_cached ==> capture.fault(chunk) == Some(
                "provider "@ + "cached tokens"@ + " regressed"@,
            )
            &&& !chunk.usage_reported && !quiet_cost ==> capture.fault(chunk) == Some(
                "provider "@ + "cost"@ + " regressed"@,
            )
            &&& chunk.usage_reported && quiet_prompt && quiet_cached && quiet_cost && or_zero(
                chunk.metrics.completion_tokens,
            ) < or_zero(capture.last_completion) ==> capture.fault(chunk) == Some(
                "provider completion usage regressed"@,
            )
            &&& !chunk.usage_reported && quiet_cost && or_zero(capture.metrics.completion_tokens) + or_zero(
                chunk.metrics.completion_tokens,
            ) > 9007199254740991 ==> capture.fault(chunk) == Some(
                "provider completion-token total exceeds JCS-safe bounds"@,
            )
        },
{
}

/// A piece of a tool call beyond the last place, or one that makes its
/// arguments too long, is refused for that.
pub proof fn law_refused_pieces_are_told_why(calls: Seq<DeltaView>, piece: DeltaView)
    ensures
        piece.index >= 128 ==> piece_fault(calls, piece) == Some(
            "provider tool-call index "@ + text::decimal_digits(piece.index as nat) + " is out of range"@,
        ),
        piece.index < 128 && 8388608 < text::byte_len(call_before(calls, piece.index).arguments) + text::byte_len(
            piece.arguments,
        ) <= usize::MAX ==> piece_fault(calls, piece) == Some("tool-call arguments"@ + " exceeds 8388608 bytes"@),
{
}

} // verus!
