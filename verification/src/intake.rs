//! Taking in a response as it comes off the network: its bytes are cut into
//! frames, each frame is read, and what it says is captured and charged.

use vstd::prelude::*;
use vstd::utf8::{decode_utf8, valid_utf8};
use crate::capture;
use crate::capture::{CaptureView, ResponseCapture};
use crate::provider;
use crate::provider::{ChunkView, ParsedProviderChunk};
use crate::sse;
use crate::text;

verus! {

/// Whether a counter of tokens is one: it counts every text, and equal texts
/// alike.
pub open spec fn is_counter<F: Fn(&str) -> u64>(count: F) -> bool {
    &&& forall|t: &str| #[trigger] call_requires(count, (t,))
    &&& forall|a: &str, b: &str, m: u64, n: u64|
        a@ == b@ && #[trigger] call_ensures(count, (a,), m) && #[trigger] call_ensures(count, (b,), n) ==> m == n
}

/// Whether a counter gives this number of tokens for a text.
pub open spec fn has_tokens<F: Fn(&str) -> u64>(count: F, s: Seq<char>, n: u64) -> bool {
    exists|t: &str| t@ == s && #[trigger] call_ensures(count, (t,), n)
}

/// The number of tokens that a counter gives for a text.
pub open spec fn tokens_of<F: Fn(&str) -> u64>(count: F, s: Seq<char>) -> u64 {
    choose|n: u64| has_tokens(count, s, n)
}

/// A frame with its completion count: the one that it reports, else that of
/// its texts.
pub open spec fn counted<F: Fn(&str) -> u64>(count: F, chunk: ChunkView) -> ChunkView {
    provider::estimated(
        chunk,
        provider::counted_texts(chunk).map_values(|s: Seq<char>| tokens_of(count, s)),
    )
}

/// The capture once a frame has been taken in, or why it cannot be. A frame
/// that says nothing changes nothing.
pub open spec fn with_frame<F: Fn(&str) -> u64>(count: F, capture: CaptureView, frame: Seq<char>) -> Result<
    CaptureView,
    Seq<char>,
> {
    match provider::chunk_of(frame) {
        Err(words) => Err(words),
        Ok(None) => Ok(capture),
        Ok(Some(chunk)) => match capture.fault(counted(count, chunk)) {
            Some(words) => Err(words),
            None => Ok(capture.after(counted(count, chunk))),
        },
    }
}

/// The capture once every complete frame in its buffer has been taken in, or
/// the first reason why one cannot be.
pub open spec fn drained<F: Fn(&str) -> u64>(count: F, capture: CaptureView) -> Result<CaptureView, Seq<char>>
    decreases capture.buffer.len(),
    via drained_decreases::<F>
{
    match sse::frame_end(capture.buffer) {
        None => if capture.buffer.len() > capture::MAX_PROVIDER_FIELD_BYTES {
            Err("unterminated provider SSE frame exceeds limit"@)
        } else {
            Ok(capture)
        },
        Some(end) => {
            let frame = capture.buffer.take(end);
            let rest = CaptureView { buffer: capture.buffer.skip(end), ..capture };
            if !valid_utf8(frame) {
                Err("provider SSE frame is not UTF-8: "@ + capture::utf8_fault(frame))
            } else {
                match with_frame(count, rest, decode_utf8(frame)) {
                    Err(words) => Err(words),
                    Ok(next) => drained(count, next),
                }
            }
        },
    }
}

#[via_fn]
proof fn drained_decreases<F: Fn(&str) -> u64>(count: F, capture: CaptureView) {
    sse::lemma_frame_end_in_buffer(capture.buffer);
}

/// The capture once more bytes have come, or why they are refused. Of a body
/// that is no event stream the bytes wait until all have come.
pub open spec fn with_bytes<F: Fn(&str) -> u64>(count: F, capture: CaptureView, raw: Seq<u8>) -> Result<
    CaptureView,
    Seq<char>,
> {
    let size = capture.captured_bytes + raw.len();
    let grown = CaptureView {
        saw_chunk: capture.saw_chunk || raw.len() > 0,
        captured_bytes: size,
        buffer: capture.buffer + raw,
        ..capture
    };
    if size > usize::MAX {
        Err("provider response size overflow"@)
    } else if size > capture::MAX_PROVIDER_CAPTURE_BYTES {
        Err("provider response exceeds 16777216 capture bytes"@)
    } else if !capture.is_sse {
        Ok(grown)
    } else {
        drained(count, grown)
    }
}

/// The capture once what is left in its buffer has been taken in as one
/// frame, or why it cannot be.
pub open spec fn flushed<F: Fn(&str) -> u64>(count: F, capture: CaptureView) -> Result<CaptureView, Seq<char>> {
    let empty = CaptureView { buffer: Seq::empty(), ..capture };
    if capture.buffer.len() == 0 {
        Ok(capture)
    } else if !valid_utf8(capture.buffer) {
        Err("provider response is not UTF-8: "@ + capture::utf8_fault(capture.buffer))
    } else {
        with_frame(count, empty, decode_utf8(capture.buffer))
    }
}

/// Counts the tokens of a list of texts.
fn count_texts<F: Fn(&str) -> u64>(count: &F, texts: &Vec<String>) -> (counts: Vec<u64>)
    requires
        is_counter(*count),
    ensures
        counts@ == text::texts(texts@).map_values(|s: Seq<char>| tokens_of(*count, s)),
{
    let ghost all = text::texts(texts@);
    let mut counts: Vec<u64> = Vec::new();
    let mut i: usize = 0;
    while i < texts.len()
        invariant
            i <= texts@.len(),
            is_counter(*count),
            all == text::texts(texts@),
            counts@.len() == i,
            forall|k: int| 0 <= k < i ==> #[trigger] counts@[k] == tokens_of(*count, all[k]),
        decreases texts.len() - i,
    {
        let t: &str = texts[i].as_str();
        let n: u64 = count(t);
        proof {
            assert(all[i as int] == t@);
            assert(has_tokens(*count, t@, n));
            let m = tokens_of(*count, t@);
            assert(has_tokens(*count, t@, m));
            assert(m == n);
        }
        counts.push(n);
        i += 1;
    }
    assert(counts@ =~= all.map_values(|s: Seq<char>| tokens_of(*count, s)));
    counts
}

impl ResponseCapture {
    /// Takes in a frame, and returns how many completion tokens it adds to
    /// the charge. After an error the capture is well formed, and holds a part
    /// of the frame that no one may rely on.
    pub fn absorb_frame<F: Fn(&str) -> u64>(&mut self, frame: &str, count: &F) -> (charge: Result<u64, String>)
        requires
            old(self)@.wf(),
            is_counter(*count),
        ensures
            final(self)@.wf(),
            match charge {
                Ok(n) => with_frame(*count, old(self)@, frame@) == Ok::<CaptureView, Seq<char>>(final(self)@) && n
                    == final(self)@.charged - old(self)@.charged,
                Err(e) => with_frame(*count, old(self)@, frame@) == Err::<CaptureView, Seq<char>>(e@),
            },
    {
        let chunk: ParsedProviderChunk = match provider::parse_provider_chunk(frame) {
            Err(words) => {
                return Err(words);
            },
            Ok(None) => {
                return Ok(0);
            },
            Ok(Some(chunk)) => chunk,
        };
        let ghost read = chunk@;
        let texts: Vec<String> = chunk.texts_to_count();
        let counts: Vec<u64> = count_texts(count, &texts);
        let chunk: ParsedProviderChunk = chunk.with_estimate(&counts);
        assert(chunk@ == counted(*count, read));
        self.absorb_chunk(&chunk)
    }

    /// Takes in bytes off the network, and returns how many completion tokens
    /// they add to the charge. After an error the capture is well formed, and
    /// holds a part of the bytes that no one may rely on.
    pub fn absorb_network_chunk<F: Fn(&str) -> u64>(&mut self, raw: &[u8], count: &F) -> (charge: Result<u64, String>)
        requires
            old(self)@.wf(),
            is_counter(*count),
        ensures
            final(self)@.wf(),
            match charge {
                Ok(n) => with_bytes(*count, old(self)@, raw@) == Ok::<CaptureView, Seq<char>>(final(self)@) && n
                    == final(self)@.charged - old(self)@.charged,
                Err(e) => with_bytes(*count, old(self)@, raw@) == Err::<CaptureView, Seq<char>>(e@),
            },
    {
        let ghost start = self@;
        if let Err(e) = self.accept(raw) {
            return Err(e);
        }
        if !self.is_sse {
            return Ok(0);
        }
        let ghost grown = self@;
        let mut charge: u64 = 0;
        loop
            invariant
                is_counter(*count),
                start == old(self)@,
                self@.wf(),
                self@.is_sse,
                self@.upstream_status == start.upstream_status,
                with_bytes(*count, start, raw@) == drained(*count, grown),
                drained(*count, self@) == drained(*count, grown),
                charge == self@.charged - start.charged,
            decreases self@.buffer.len(),
        {
            let ghost before = self@;
            proof {
                sse::lemma_frame_end_in_buffer(before.buffer);
            }
            match self.next_frame() {
                Err(e) => {
                    return Err(e);
                },
                Ok(None) => {
                    return Ok(charge);
                },
                Ok(Some(frame)) => match self.absorb_frame(frame.as_str(), count) {
                    Err(e) => {
                        return Err(e);
                    },
                    Ok(n) => {
                        charge = charge + n;
                    },
                },
            }
        }
    }

    /// Takes in what is left once all bytes have come, and returns how many
    /// completion tokens it adds to the charge.
    pub fn flush_protocol_buffer<F: Fn(&str) -> u64>(&mut self, count: &F) -> (charge: Result<u64, String>)
        requires
            old(self)@.wf(),
            is_counter(*count),
        ensures
            final(self)@.wf(),
            match charge {
                Ok(n) => flushed(*count, old(self)@) == Ok::<CaptureView, Seq<char>>(final(self)@) && n
                    == final(self)@.charged - old(self)@.charged,
                Err(e) => flushed(*count, old(self)@) == Err::<CaptureView, Seq<char>>(e@),
            },
    {
        match self.flush() {
            Err(e) => Err(e),
            Ok(None) => {
                assert(self@ =~= old(self)@);
                Ok(0)
            },
            Ok(Some(frame)) => self.absorb_frame(frame.as_str(), count),
        }
    }
}

/// A capture with more bytes behind those that have come.
pub open spec fn with_more(capture: CaptureView, more: Seq<u8>) -> CaptureView {
    CaptureView {
        saw_chunk: capture.saw_chunk || more.len() > 0,
        captured_bytes: capture.captured_bytes + more.len(),
        buffer: capture.buffer + more,
        ..capture
    }
}

/// Bytes that have come and wait do not change what a frame does.
proof fn lemma_frame_ignores_more<F: Fn(&str) -> u64>(
    count: F,
    capture: CaptureView,
    frame: Seq<char>,
    more: Seq<u8>,
)
    ensures
        match with_frame(count, capture, frame) {
            Ok(next) => with_frame(count, with_more(capture, more), frame) == Ok::<CaptureView, Seq<char>>(
                with_more(next, more),
            ) && next.buffer == capture.buffer,
            Err(words) => with_frame(count, with_more(capture, more), frame) == Err::<CaptureView, Seq<char>>(words),
        },
{
    match provider::chunk_of(frame) {
        Ok(Some(chunk)) => {
            let c = counted(count, chunk);
            assert(with_more(capture, more).fault(c) == capture.fault(c));
            assert(with_more(capture, more).after(c) =~= with_more(capture.after(c), more));
        },
        _ => {},
    }
}

/// Frames that are complete are taken in alike whether more bytes have come
/// or not.
proof fn lemma_drained_with_more<F: Fn(&str) -> u64>(count: F, capture: CaptureView, more: Seq<u8>)
    requires
        drained(count, capture) is Ok,
    ensures
        drained(count, with_more(capture, more)) == drained(
            count,
            with_more(drained(count, capture)->Ok_0, more),
        ),
    decreases capture.buffer.len(),
{
    sse::lemma_frame_end_in_buffer(capture.buffer);
    match sse::frame_end(capture.buffer) {
        None => {},
        Some(end) => {
            sse::law_frame_end_is_stable(capture.buffer, more);
            let frame = capture.buffer.take(end);
            let rest = CaptureView { buffer: capture.buffer.skip(end), ..capture };
            let all = with_more(capture, more);
            assert(all.buffer.take(end) =~= frame);
            assert(all.buffer.skip(end) =~= capture.buffer.skip(end) + more);
            assert(CaptureView { buffer: all.buffer.skip(end), ..all } =~= with_more(rest, more));
            lemma_frame_ignores_more(count, rest, decode_utf8(frame), more);
            let next = with_frame(count, rest, decode_utf8(frame))->Ok_0;
            lemma_drained_with_more(count, next, more);
        },
    }
}

/// How a provider's bytes are cut into network chunks changes nothing: bytes
/// that are taken in in two parts leave the same capture, and the same
/// charge, as the whole of them does.
pub proof fn law_network_chunks_are_invisible<F: Fn(&str) -> u64>(
    count: F,
    capture: CaptureView,
    first: Seq<u8>,
    second: Seq<u8>,
)
    requires
        with_bytes(count, capture, first) is Ok,
        with_bytes(count, with_bytes(count, capture, first)->Ok_0, second) is Ok,
    ensures
        with_bytes(count, capture, first + second) == with_bytes(
            count,
            with_bytes(count, capture, first)->Ok_0,
            second,
        ),
{
    let grown = with_more(capture, first);
    let all = with_more(capture, first + second);
    assert(all =~= with_more(grown, second));
    if capture.is_sse {
        lemma_drained_with_more(count, grown, second);
        lemma_drained_keeps(count, grown);
    }
}

/// Taking in frames leaves the count of bytes and the kind of the body.
proof fn lemma_drained_keeps<F: Fn(&str) -> u64>(count: F, capture: CaptureView)
    requires
        drained(count, capture) is Ok,
    ensures
        drained(count, capture)->Ok_0.captured_bytes == capture.captured_bytes,
        drained(count, capture)->Ok_0.is_sse == capture.is_sse,
    decreases capture.buffer.len(),
{
    sse::lemma_frame_end_in_buffer(capture.buffer);
    if let Some(end) = sse::frame_end(capture.buffer) {
        let rest = CaptureView { buffer: capture.buffer.skip(end), ..capture };
        lemma_drained_keeps(count, with_frame(count, rest, decode_utf8(capture.buffer.take(end)))->Ok_0);
    }
}

/// A response is captured up to its bound, 16 MiB in all; what goes beyond is
/// refused. A body that is no event stream is only gathered: it says nothing
/// before its end.
pub proof fn law_responses_are_captured_up_to_a_bound<F: Fn(&str) -> u64>(count: F, capture: CaptureView, raw: Seq<u8>)
    requires
        0 <= capture.captured_bytes,
    ensures
        capture.captured_bytes + raw.len() > 16777216 ==> with_bytes(count, capture, raw) is Err,
        !capture.is_sse && capture.captured_bytes + raw.len() <= 16777216 ==> (with_bytes(count, capture, raw) matches Ok(
            after,
        ) && after.buffer == capture.buffer + raw && after.captured_bytes == capture.captured_bytes + raw.len()
            && after.message == capture.message && after.charged == capture.charged && after.tool_calls
            == capture.tool_calls && after.cost_usd_micros == capture.cost_usd_micros),
{
}

/// What is taken of an event stream are its whole frames: what waits on is
/// exactly what is left over of it, and holds no whole frame.
pub proof fn law_whole_frames_are_taken_at_once<F: Fn(&str) -> u64>(count: F, capture: CaptureView)
    requires
        drained(count, capture) is Ok,
    ensures
        drained(count, capture)->Ok_0.buffer == sse::leftover(capture.buffer),
        sse::frame_end(drained(count, capture)->Ok_0.buffer) is None,
        drained(count, capture)->Ok_0.buffer.len() <= 8388608,
        drained(count, capture)->Ok_0.captured_bytes == capture.captured_bytes,
        drained(count, capture)->Ok_0.upstream_status == capture.upstream_status,
    decreases capture.buffer.len(),
{
    sse::lemma_frame_end_in_buffer(capture.buffer);
    if let Some(end) = sse::frame_end(capture.buffer) {
        let rest = CaptureView { buffer: capture.buffer.skip(end), ..capture };
        let next = with_frame(count, rest, decode_utf8(capture.buffer.take(end)))->Ok_0;
        assert(next.buffer == rest.buffer);
        law_whole_frames_are_taken_at_once(count, next);
    }
}

/// A frame that is no text, no JSON or no sound account is refused, and one
/// without a document changes nothing; every other is taken in.
pub proof fn law_frames_are_taken_or_refused<F: Fn(&str) -> u64>(count: F, capture: CaptureView, frame: Seq<char>)
    ensures
        provider::frame_document(frame) is None ==> with_frame(count, capture, frame) == Ok::<CaptureView, Seq<char>>(
            capture,
        ),
        provider::chunk_of(frame) matches Err(words) ==> with_frame(count, capture, frame) == Err::<
            CaptureView,
            Seq<char>,
        >(words),
        provider::chunk_of(frame) matches Ok(Some(chunk)) ==> (chunk.metrics.completion_tokens is Some ==> match capture.fault(
            chunk,
        ) {
            Some(words) => with_frame(count, capture, frame) == Err::<CaptureView, Seq<char>>(words),
            None => with_frame(count, capture, frame) == Ok::<CaptureView, Seq<char>>(capture.after(chunk)),
        }),
{
    if let Ok(Some(chunk)) = provider::chunk_of(frame) {
        if chunk.metrics.completion_tokens is Some {
            provider::law_estimates_fill_gaps_only(
                chunk,
                provider::counted_texts(chunk).map_values(|s: Seq<char>| tokens_of(count, s)),
            );
        }
    }
}

/// What is left at the end of a response is taken as one frame, and nothing
/// waits afterwards; where nothing is left, nothing changes.
pub proof fn law_the_rest_is_taken_at_the_end<F: Fn(&str) -> u64>(count: F, capture: CaptureView)
    ensures
        capture.buffer.len() == 0 ==> flushed(count, capture) == Ok::<CaptureView, Seq<char>>(capture),
        flushed(count, capture) matches Ok(after) ==> after.buffer.len() == 0,
        capture.buffer.len() > 0 && !valid_utf8(capture.buffer) ==> flushed(count, capture) is Err,
        capture.buffer.len() > 0 && valid_utf8(capture.buffer) ==> flushed(count, capture) == with_frame(
            count,
            CaptureView { buffer: Seq::empty(), ..capture },
            decode_utf8(capture.buffer),
        ),
{
}

/// Bytes that are no text, that never end a frame, or that are too many, are
/// refused for that.
pub proof fn law_refused_bytes_are_told_why<F: Fn(&str) -> u64>(count: F, capture: CaptureView, raw: Seq<u8>)
    ensures
        usize::MAX >= capture.captured_bytes + raw.len() > 16777216 ==> with_bytes(count, capture, raw) == Err::<
            CaptureView,
            Seq<char>,
        >("provider response exceeds 16777216 capture bytes"@),
        capture.captured_bytes + raw.len() > usize::MAX ==> with_bytes(count, capture, raw) == Err::<
            CaptureView,
            Seq<char>,
        >("provider response size overflow"@),
        sse::frame_end(capture.buffer) is None && capture.buffer.len() > 8388608 ==> drained(count, capture) == Err::<
            CaptureView,
            Seq<char>,
        >("unterminated provider SSE frame exceeds limit"@),
        (sse::frame_end(capture.buffer) matches Some(end) && !valid_utf8(capture.buffer.take(end))) ==> drained(
            count,
            capture,
        ) == Err::<CaptureView, Seq<char>>(
            "provider SSE frame is not UTF-8: "@ + capture::utf8_fault(
                capture.buffer.take(sse::frame_end(capture.buffer)->0),
            ),
        ),
        capture.buffer.len() > 0 && !valid_utf8(capture.buffer) ==> flushed(count, capture) == Err::<
            CaptureView,
            Seq<char>,
        >("provider response is not UTF-8: "@ + capture::utf8_fault(capture.buffer)),
        capture.buffer.len() == 0 ==> flushed(count, capture) == Ok::<CaptureView, Seq<char>>(capture),
{
}

} // verus!
