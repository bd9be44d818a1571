//! Server-sent events: where one event of a byte stream ends.

use vstd::prelude::*;

verus! {

/// Whether a byte ends a line, alone or as half of a CR LF pair.
pub open spec fn is_break(b: u8) -> bool {
    b == 10 || b == 13
}

/// Whether a line begins at `p`: at the front, or right behind a line break
/// and not between the halves of a CR LF pair.
pub open spec fn line_start(buffer: Seq<u8>, p: int) -> bool {
    ||| p == 0
    ||| 0 < p <= buffer.len() && is_break(buffer[p - 1]) && !(buffer[p - 1] == 13 && p < buffer.len()
        && buffer[p] == 10)
}

/// Whether an empty line begins at `p`.
pub open spec fn blank_line(buffer: Seq<u8>, p: int) -> bool {
    0 <= p < buffer.len() && line_start(buffer, p) && is_break(buffer[p])
}

/// Number of bytes of the line break at `p`.
pub open spec fn break_len(buffer: Seq<u8>, p: int) -> int {
    if buffer[p] == 13 && p + 1 < buffer.len() && buffer[p + 1] == 10 {
        2
    } else {
        1
    }
}

/// Whether it is still open what the line break at `p` is: a CR at the end
/// of what has come so far may turn out to be the first half of a pair.
pub open spec fn undecided(buffer: Seq<u8>, p: int) -> bool {
    buffer[p] == 13 && p + 1 == buffer.len()
}

/// Whether `p` is where the first empty line begins.
pub open spec fn first_blank(buffer: Seq<u8>, p: int) -> bool {
    blank_line(buffer, p) && forall|q: int| q < p ==> !#[trigger] blank_line(buffer, q)
}

/// An event ends behind its first empty line, once that line is decided.
pub open spec fn frame_end(buffer: Seq<u8>) -> Option<int> {
    if exists|p: int| first_blank(buffer, p) {
        let p = choose|p: int| first_blank(buffer, p);
        if undecided(buffer, p) {
            None
        } else {
            Some(p + break_len(buffer, p))
        }
    } else {
        None
    }
}

/// There is one first empty line at most.
proof fn lemma_first_blank_unique(buffer: Seq<u8>, p: int, q: int)
    requires
        first_blank(buffer, p),
        first_blank(buffer, q),
    ensures
        p == q,
{
    if p < q {
        assert(blank_line(buffer, p));
    } else if q < p {
        assert(blank_line(buffer, q));
    }
}

/// What `frame_end` says, given the first empty line.
proof fn lemma_frame_end_at(buffer: Seq<u8>, p: int)
    requires
        first_blank(buffer, p),
    ensures
        frame_end(buffer) == (if undecided(buffer, p) {
            None::<int>
        } else {
            Some(p + break_len(buffer, p))
        }),
{
    let q = choose|q: int| first_blank(buffer, q);
    lemma_first_blank_unique(buffer, p, q);
}

/// An event ends inside the buffer, behind at least one byte.
pub proof fn lemma_frame_end_in_buffer(buffer: Seq<u8>)
    ensures
        frame_end(buffer) matches Some(end) ==> 0 < end <= buffer.len(),
{
    if exists|p: int| first_blank(buffer, p) {
        let p = choose|p: int| first_blank(buffer, p);
        lemma_frame_end_at(buffer, p);
    }
}

/// Where the first event of `buffer` ends: the number of bytes up to and with
/// its closing empty line. Lines end with LF, CR or CR LF. Nothing is found
/// as long as no event is complete.
pub fn sse_frame_end(buffer: &[u8]) -> (end: Option<usize>)
    ensures
        match end {
            Some(e) => frame_end(buffer@) == Some(e as int),
            None => frame_end(buffer@) is None,
        },
{
    let mut start: usize = 0;
    let mut index: usize = 0;
    while index < buffer.len()
        invariant
            start <= index <= buffer@.len(),
            line_start(buffer@, start as int),
            forall|k: int| start <= k < index ==> !is_break(#[trigger] buffer@[k]),
            forall|q: int| q < index ==> !#[trigger] blank_line(buffer@, q),
        decreases buffer.len() - index,
    {
        let byte: u8 = buffer[index];
        let newline: usize = if byte == 13 {
            if index + 1 < buffer.len() {
                if buffer[index + 1] == 10 {
                    2
                } else {
                    1
                }
            } else {
                proof {
                    if exists|p: int| first_blank(buffer@, p) {
                        let p = choose|p: int| first_blank(buffer@, p);
                        assert(p == index);
                    }
                }
                return None;
            }
        } else if byte == 10 {
            1
        } else {
            index += 1;
            continue ;
        };
        if index == start {
            assert(first_blank(buffer@, index as int));
            proof {
                lemma_frame_end_at(buffer@, index as int);
            }
            return Some(index + newline);
        }
        proof {
            assert(!is_break(buffer@[index - 1]));
            assert forall|q: int| q < index + newline implies !#[trigger] blank_line(buffer@, q) by {
                if q == index {
                } else if q == index + 1 {
                    assert(newline == 2);
                }
            }
        }
        index += newline;
        start = index;
    }
    None
}

/// The events that a buffer holds in full, in order.
pub open spec fn frames(buffer: Seq<u8>) -> Seq<Seq<u8>>
    decreases buffer.len(),
{
    match frame_end(buffer) {
        Some(end) => if 0 < end <= buffer.len() {
            seq![buffer.take(end)] + frames(buffer.skip(end))
        } else {
            Seq::empty()
        },
        None => Seq::empty(),
    }
}

/// What follows the last full event of a buffer.
pub open spec fn leftover(buffer: Seq<u8>) -> Seq<u8>
    decreases buffer.len(),
{
    match frame_end(buffer) {
        Some(end) => if 0 < end <= buffer.len() {
            leftover(buffer.skip(end))
        } else {
            buffer
        },
        None => buffer,
    }
}

/// Where an event ends does not depend on what comes after it.
pub proof fn law_frame_end_is_stable(buffer: Seq<u8>, more: Seq<u8>)
    requires
        frame_end(buffer) is Some,
    ensures
        frame_end(buffer + more) == frame_end(buffer),
{
    let p = choose|p: int| first_blank(buffer, p);
    assert(first_blank(buffer, p));
    lemma_frame_end_at(buffer, p);
    let all = buffer + more;
    assert forall|q: int| q <= p implies #[trigger] blank_line(all, q) == blank_line(buffer, q) by {
        if 0 <= q <= p {
            assert(all[q] == buffer[q]);
            if q > 0 {
                assert(all[q - 1] == buffer[q - 1]);
            }
        }
    }
    assert(blank_line(all, p));
    assert(first_blank(all, p));
    lemma_frame_end_at(all, p);
    assert(all[p] == buffer[p]);
    if p + 1 < buffer.len() {
        assert(all[p + 1] == buffer[p + 1]);
    }
}

/// A stream is cut into the same events however the network cuts it into
/// chunks: the events of `first` followed by those of what it leaves over
/// with `second` behind it are the events of the whole.
pub proof fn law_chunking_is_invisible(first: Seq<u8>, second: Seq<u8>)
    ensures
        frames(first + second) == frames(first) + frames(leftover(first) + second),
        leftover(first + second) == leftover(leftover(first) + second),
    decreases first.len(),
{
    lemma_frame_end_in_buffer(first);
    match frame_end(first) {
        Some(end) => {
            law_frame_end_is_stable(first, second);
            let all = first + second;
            assert(all.take(end) =~= first.take(end));
            assert(all.skip(end) =~= first.skip(end) + second);
            law_chunking_is_invisible(first.skip(end), second);
            assert(frames(all) =~= frames(first) + frames(leftover(first) + second));
        },
        None => {
            assert(frames(first) + frames(first + second) =~= frames(first + second));
        },
    }
}

/// Where lines end with LF, an event ends behind the first empty line: behind
/// the second of the first two line ends that follow each other, or behind a
/// line end at the very beginning.
pub proof fn law_events_end_with_an_empty_line(buffer: Seq<u8>, p: int)
    requires
        forall|i: int| 0 <= i < buffer.len() ==> #[trigger] buffer[i] != 13,
        0 <= p < buffer.len(),
        buffer[p] == 10,
        p == 0 || buffer[p - 1] == 10,
        forall|q: int| 0 <= q < p && #[trigger] buffer[q] == 10 ==> q > 0 && buffer[q - 1] != 10,
    ensures
        frame_end(buffer) == Some(p + 1),
{
    assert(blank_line(buffer, p)) by {
        if p > 0 {
            assert(buffer[p - 1] != 13);
        }
    }
    assert forall|q: int| q < p implies !#[trigger] blank_line(buffer, q) by {
        if 0 <= q {
            assert(buffer[q] != 13);
            if buffer[q] == 10 {
                assert(q > 0 && buffer[q - 1] != 10);
                assert(buffer[q - 1] != 13);
            }
        }
    }
    assert(first_blank(buffer, p));
    assert(buffer[p] != 13);
    lemma_frame_end_at(buffer, p);
}

/// Without an empty line no event is complete.
pub proof fn law_unended_events_wait(buffer: Seq<u8>)
    requires
        forall|i: int| 0 <= i < buffer.len() ==> #[trigger] buffer[i] != 13,
        forall|q: int| 0 <= q < buffer.len() && #[trigger] buffer[q] == 10 ==> q > 0 && buffer[q - 1] != 10,
    ensures
        frame_end(buffer) is None,
        leftover(buffer) == buffer,
{
    if exists|p: int| first_blank(buffer, p) {
        let p = choose|p: int| first_blank(buffer, p);
        assert(blank_line(buffer, p));
        assert(buffer[p] != 13);
        assert(buffer[p] == 10);
        assert(p > 0 && buffer[p - 1] != 10);
        assert(buffer[p - 1] != 13);
    }
}

/// A line that ends with CR LF and is followed by an empty one ends an event
/// behind the four bytes, whatever comes after.
pub proof fn law_carriage_returns_end_events_too(line: Seq<u8>, more: Seq<u8>)
    requires
        line.len() > 0,
        forall|i: int| 0 <= i < line.len() ==> #[trigger] line[i] != 13 && line[i] != 10,
    ensures
        frame_end(line + seq![13u8, 10, 13, 10] + more) == Some(line.len() as int + 4),
{
    let n = line.len() as int;
    let buffer = line + seq![13u8, 10, 13, 10] + more;
    assert(buffer[n] == 13 && buffer[n + 1] == 10 && buffer[n + 2] == 13 && buffer[n + 3] == 10);
    assert(forall|i: int| 0 <= i < n ==> #[trigger] buffer[i] == line[i]);
    assert(blank_line(buffer, n + 2));
    assert forall|q: int| q < n + 2 implies !#[trigger] blank_line(buffer, q) by {
        if 0 <= q < n {
            assert(buffer[q] == line[q]);
        } else if q == n {
            assert(buffer[n - 1] == line[n - 1]);
        }
    }
    assert(first_blank(buffer, n + 2));
    lemma_frame_end_at(buffer, n + 2);
}

/// The frames of a stream and what is left over are the stream, byte for
/// byte: nothing is lost between them.
pub proof fn law_frames_lose_nothing(buffer: Seq<u8>)
    ensures
        all_bytes(frames(buffer)) + leftover(buffer) == buffer,
        frame_end(leftover(buffer)) is None,
    decreases buffer.len(),
{
    lemma_frame_end_in_buffer(buffer);
    match frame_end(buffer) {
        Some(end) => {
            let rest = buffer.skip(end);
            law_frames_lose_nothing(rest);
            let all = frames(buffer);
            assert(all.skip(1) =~= frames(rest));
            assert(all[0] == buffer.take(end));
            assert(all_bytes(all) + leftover(buffer) =~= buffer.take(end) + (all_bytes(frames(rest)) + leftover(rest)));
            assert(buffer.take(end) + rest =~= buffer);
        },
        None => {
            assert(all_bytes(frames(buffer)) + leftover(buffer) =~= buffer);
        },
    }
}

/// The bytes of several frames, one behind the other.
pub open spec fn all_bytes(parts: Seq<Seq<u8>>) -> Seq<u8>
    decreases parts.len(),
{
    if parts.len() == 0 {
        Seq::empty()
    } else {
        parts[0] + all_bytes(parts.skip(1))
    }
}

} // verus!
