//! Files of the spool: their names, and the lines of a journal.

use vstd::prelude::*;
use vstd::slice::slice_subrange;
use vstd::utf8::{
    decode_utf8, encode_scalar, encode_utf8, encode_utf8_decode_utf8, encode_utf8_valid_utf8, valid_utf8,
};
use crate::capture;
use crate::errors::{FinalizeError, FinalizeErrorView};
use crate::text;

verus! {

/// The end of the last complete line: everything before it ends in a line
/// feed, and there is none behind it.
pub open spec fn complete_end(bytes: Seq<u8>) -> int
    decreases bytes.len(),
{
    if bytes.len() == 0 || bytes.last() == 10 {
        bytes.len() as int
    } else {
        complete_end(bytes.drop_last())
    }
}

/// What is done with the bytes of a journal.
#[derive(Clone, Copy, Debug, PartialEq, Eq, Structural)]
pub enum JournalPlan {
    /// There are none.
    Empty,
    /// They hold no complete line: the file is set aside, not cut to
    /// nothing.
    SetAside,
    /// So many are read, and the rest is cut off.
    Read { keep: usize, trim: bool },
}

/// What is done with the bytes of a journal.
pub open spec fn journal_plan(bytes: Seq<u8>) -> JournalPlan {
    let keep = complete_end(bytes);
    if bytes.len() == 0 {
        JournalPlan::Empty
    } else if keep == 0 {
        JournalPlan::SetAside
    } else {
        JournalPlan::Read { keep: keep as usize, trim: keep < bytes.len() }
    }
}

/// The end of the last complete line lies within the bytes.
pub proof fn lemma_complete_end(bytes: Seq<u8>)
    ensures
        0 <= complete_end(bytes) <= bytes.len(),
        complete_end(bytes) > 0 ==> bytes[complete_end(bytes) - 1] == 10,
        forall|i: int| complete_end(bytes) <= i < bytes.len() ==> bytes[i] != 10,
    decreases bytes.len(),
{
    if bytes.len() > 0 && bytes.last() != 10 {
        lemma_complete_end(bytes.drop_last());
        assert forall|i: int| complete_end(bytes) <= i < bytes.len() implies bytes[i] != 10 by {
            if i < bytes.len() - 1 {
                assert(bytes.drop_last()[i] == bytes[i]);
            }
        }
    }
}

/// Decides what is done with the bytes of a journal.
pub fn plan_journal(bytes: &[u8]) -> (plan: JournalPlan)
    ensures
        plan == journal_plan(bytes@),
{
    if bytes.len() == 0 {
        return JournalPlan::Empty;
    }
    let mut end: usize = bytes.len();
    assert(bytes@.take(end as int) =~= bytes@);
    while end > 0 && bytes[end - 1] != 10
        invariant
            end <= bytes@.len(),
            complete_end(bytes@) == complete_end(bytes@.take(end as int)),
        decreases end,
    {
        assert(bytes@.take(end as int).drop_last() =~= bytes@.take(end - 1));
        end -= 1;
    }
    if end == 0 {
        JournalPlan::SetAside
    } else {
        assert(bytes@.take(end as int).last() == 10);
        JournalPlan::Read { keep: end, trim: end < bytes.len() }
    }
}

/// A journal that was cut short while a line was being written keeps every
/// line that was complete, and nothing else.
pub proof fn law_torn_tail_is_cut_off(whole: Seq<u8>, tail: Seq<u8>)
    requires
        whole.len() == 0 || whole.last() == 10,
        forall|i: int| 0 <= i < tail.len() ==> tail[i] != 10,
    ensures
        complete_end(whole + tail) == whole.len(),
    decreases tail.len(),
{
    if tail.len() == 0 {
        assert(whole + tail =~= whole);
    } else {
        assert((whole + tail).last() == tail.last());
        assert((whole + tail).drop_last() =~= whole + tail.drop_last());
        law_torn_tail_is_cut_off(whole, tail.drop_last());
    }
}

/// A journal that has been cut is complete: it is not cut again.
pub proof fn law_cutting_settles(bytes: Seq<u8>)
    ensures
        complete_end(bytes.take(complete_end(bytes))) == complete_end(bytes),
{
    lemma_complete_end(bytes);
    let kept = bytes.take(complete_end(bytes));
    if kept.len() > 0 {
        assert(kept.last() == 10);
    }
}

/// How many characters come before the first line feed.
pub open spec fn line_len(s: Seq<char>) -> int
    decreases s.len(),
{
    if s.len() == 0 || s[0] == '\n' {
        0
    } else {
        1 + line_len(s.skip(1))
    }
}

/// The first line of a text, without its end: a line feed, or a carriage
/// return and a line feed.
pub open spec fn first_line(s: Seq<char>) -> Seq<char> {
    let n = line_len(s);
    if n < s.len() && n > 0 && s[n - 1] == '\r' {
        s.take(n - 1)
    } else {
        s.take(n)
    }
}

/// What comes behind the first line of a text.
pub open spec fn after_line(s: Seq<char>) -> Seq<char> {
    if line_len(s) < s.len() {
        s.skip(line_len(s) + 1)
    } else {
        Seq::empty()
    }
}

/// The first line lies within the text.
proof fn lemma_line_len(s: Seq<char>)
    ensures
        0 <= line_len(s) <= s.len(),
        line_len(s) < s.len() ==> s[line_len(s)] == '\n',
        s.len() > 0 ==> after_line(s).len() < s.len(),
    decreases s.len(),
{
    if s.len() > 0 && s[0] != '\n' {
        lemma_line_len(s.skip(1));
    }
}

/// The lines of a text that are not blank.
pub open spec fn full_lines(s: Seq<char>) -> Seq<Seq<char>>
    decreases s.len(),
    via full_lines_decreases
{
    if s.len() == 0 {
        Seq::empty()
    } else {
        let rest = full_lines(after_line(s));
        if text::trimmed(first_line(s)).len() == 0 {
            rest
        } else {
            seq![first_line(s)] + rest
        }
    }
}

#[via_fn]
proof fn full_lines_decreases(s: Seq<char>) {
    lemma_line_len(s);
}

/// The lines of a text that are not blank.
fn split_lines(s: &str) -> (lines: Vec<String>)
    ensures
        text::texts(lines@) == full_lines(s@),
{
    let chars: Vec<char> = text::chars_of(s);
    let ghost all = s@;
    let mut lines: Vec<String> = Vec::new();
    let mut at: usize = 0;
    proof {
        assert(all.skip(0) =~= all);
        assert(text::texts(lines@) + full_lines(all) =~= full_lines(all));
    }
    while at < chars.len()
        invariant
            chars@ == all,
            at <= chars@.len(),
            text::texts(lines@) + full_lines(all.skip(at as int)) == full_lines(all),
        decreases chars.len() - at,
    {
        let ghost left = all.skip(at as int);
        let mut end: usize = at;
        proof {
            lemma_line_len(left);
        }
        while end < chars.len() && chars[end] != '\n'
            invariant
                chars@ == all,
                at <= end <= chars@.len(),
                left == all.skip(at as int),
                line_len(left) == (end - at) + line_len(all.skip(end as int)),
            decreases chars.len() - end,
        {
            proof {
                assert(all.skip(end as int)[0] == all[end as int]);
                assert(all.skip(end as int).skip(1) =~= all.skip(end + 1));
            }
            end += 1;
        }
        proof {
            if end < all.len() {
                assert(all.skip(end as int)[0] == all[end as int]);
            }
            assert(line_len(left) == end - at);
        }
        let mut last: usize = end;
        if end < chars.len() && end > at && chars[end - 1] == '\r' {
            last = end - 1;
        }
        let mut line = String::new();
        let mut i: usize = at;
        while i < last
            invariant
                chars@ == all,
                at <= i <= last <= chars@.len(),
                line@ == all.subrange(at as int, i as int),
            decreases last - i,
        {
            line.push(chars[i]);
            assert(line@ =~= all.subrange(at as int, i + 1));
            i += 1;
        }
        proof {
            if end > at {
                assert(left[end - at - 1] == all[end - 1]);
            }
            assert(line@ =~= first_line(left));
        }
        let ghost before = text::texts(lines@);
        let ghost rest = full_lines(after_line(left));
        if !text::trim(line.as_str()).as_str().is_empty() {
            lines.push(line);
            assert(text::texts(lines@) =~= before.push(line@));
            assert(text::texts(lines@) + rest =~= before + (seq![line@] + rest));
        }
        assert(text::texts(lines@) + rest == full_lines(all));
        if end < chars.len() {
            assert(after_line(left) =~= all.skip(end + 1));
            at = end + 1;
        } else {
            assert(after_line(left) =~= all.skip(end as int));
            at = end;
        }
    }
    proof {
        assert(all.skip(at as int).len() == 0);
        assert(text::texts(lines@) + full_lines(all.skip(at as int)) =~= text::texts(lines@));
    }
    lines
}

/// The lines of the kept part of a journal.
pub fn journal_lines(bytes: &[u8], keep: usize) -> (lines: Result<Vec<String>, FinalizeError>)
    requires
        keep <= bytes@.len(),
    ensures
        match lines {
            Ok(found) => valid_utf8(bytes@.take(keep as int)) && text::texts(found@) == full_lines(
                decode_utf8(bytes@.take(keep as int)),
            ),
            Err(e) => !valid_utf8(bytes@.take(keep as int)) && e@ == FinalizeErrorView::Atif(
                capture::utf8_fault(bytes@.take(keep as int)),
            ),
        },
{
    let kept: &[u8] = slice_subrange(bytes, 0, keep);
    assert(kept@ =~= bytes@.take(keep as int));
    match capture::text_of_bytes(kept) {
        Ok(s) => Ok(split_lines(s.as_str())),
        Err(words) => Err(FinalizeError::Atif(words)),
    }
}

/// The text of a journal to which these lines were appended, one after
/// another.
pub open spec fn written(lines: Seq<Seq<char>>) -> Seq<char>
    decreases lines.len(),
{
    if lines.len() == 0 {
        Seq::empty()
    } else {
        lines[0] + seq!['\n'] + written(lines.skip(1))
    }
}

/// Whether a text can be told apart as a line: it holds no line feed, does
/// not end in a carriage return, and is not blank.
pub open spec fn is_line(line: Seq<char>) -> bool {
    &&& forall|i: int| 0 <= i < line.len() ==> line[i] != '\n'
    &&& line.len() > 0 ==> line.last() != '\r'
    &&& text::trimmed(line).len() > 0
}

/// A line that is followed by a line feed is the first line.
proof fn lemma_leading_line(line: Seq<char>, rest: Seq<char>)
    requires
        forall|i: int| 0 <= i < line.len() ==> line[i] != '\n',
    ensures
        line_len(line + seq!['\n'] + rest) == line.len(),
    decreases line.len(),
{
    let whole = line + seq!['\n'] + rest;
    if line.len() > 0 {
        assert(whole[0] == line[0]);
        assert(whole.skip(1) =~= line.skip(1) + seq!['\n'] + rest);
        lemma_leading_line(line.skip(1), rest);
    } else {
        assert(whole[0] == '\n');
    }
}

/// The lines of a written journal are those that were written.
proof fn lemma_written_lines(lines: Seq<Seq<char>>)
    requires
        forall|i: int| 0 <= i < lines.len() ==> is_line(#[trigger] lines[i]),
    ensures
        full_lines(written(lines)) == lines,
        written(lines).len() > 0 ==> written(lines).last() == '\n',
    decreases lines.len(),
{
    if lines.len() > 0 {
        let line = lines[0];
        let rest = written(lines.skip(1));
        let whole = written(lines);
        assert(is_line(line));
        assert forall|i: int| 0 <= i < lines.skip(1).len() implies is_line(#[trigger] lines.skip(1)[i]) by {
            assert(lines.skip(1)[i] == lines[i + 1]);
        }
        lemma_written_lines(lines.skip(1));
        lemma_leading_line(line, rest);
        assert(whole.take(line.len() as int) =~= line);
        assert(line.len() > 0 ==> whole[line.len() - 1] == line.last());
        assert(first_line(whole) == line);
        assert(after_line(whole) =~= rest);
        assert(seq![line] + lines.skip(1) =~= lines);
        if rest.len() > 0 {
            assert(whole.last() == rest.last());
        } else {
            assert(whole.last() == '\n');
        }
    } else {
        assert(written(lines) =~= Seq::empty());
        assert(full_lines(written(lines)) =~= lines);
    }
}

/// A text that ends in a line feed ends in that byte.
proof fn lemma_encoded_end(s: Seq<char>)
    requires
        s.len() > 0,
        s.last() == '\n',
    ensures
        encode_utf8(s).len() > 0,
        encode_utf8(s).last() == 10,
    decreases s.len(),
{
    if s.len() > 1 {
        assert(s.drop_first().last() == '\n');
        lemma_encoded_end(s.drop_first());
    } else {
        assert(s.drop_first() =~= Seq::empty());
        assert(encode_utf8(s.drop_first()) =~= Seq::<u8>::empty());
        assert(s[0] as u32 == 10);
        assert(10u32 & 0x7f == 10) by (bit_vector);
        assert(encode_scalar(10u32) =~= seq![10u8]);
    }
}

/// A journal gives back the lines that were appended to it, in their order,
/// whatever was being written when it was cut short.
pub proof fn law_journal_gives_back_its_lines(lines: Seq<Seq<char>>, torn: Seq<u8>)
    requires
        forall|i: int| 0 <= i < lines.len() ==> is_line(#[trigger] lines[i]),
        forall|i: int| 0 <= i < torn.len() ==> torn[i] != 10,
    ensures
        ({
            let bytes = encode_utf8(written(lines)) + torn;
            let kept = bytes.take(complete_end(bytes));
            valid_utf8(kept) && full_lines(decode_utf8(kept)) == lines
        }),
{
    let whole = encode_utf8(written(lines));
    let bytes = whole + torn;
    lemma_written_lines(lines);
    if written(lines).len() > 0 {
        lemma_encoded_end(written(lines));
    } else {
        assert(whole =~= Seq::empty());
    }
    law_torn_tail_is_cut_off(whole, torn);
    assert(bytes.take(complete_end(bytes)) =~= whole);
    encode_utf8_valid_utf8(written(lines));
    encode_utf8_decode_utf8(written(lines));
}

/// The words for a journal that holds no complete line. It was set aside
/// under another name, or that failed and it stands where it stood.
pub open spec fn torn_words(name: Seq<char>, aside: Seq<char>, len: nat, failure: Option<Seq<char>>) -> Seq<char> {
    let head = "journal "@ + name + " contained no complete lines ("@ + text::decimal_digits(len) + " bytes); "@;
    match failure {
        None => head + "quarantined at "@ + aside,
        Some(words) => head + "quarantine rename to "@ + aside + " failed: "@ + words + "; bytes remain at "@ + name,
    }
}

/// The failure to read a journal that holds no complete line.
pub fn torn_journal(name: &str, aside: &str, len: u64, failure: &Option<String>) -> (error: FinalizeError)
    ensures
        error@ == FinalizeErrorView::Atif(torn_words(name@, aside@, len as nat, text::opt_text(*failure))),
{
    let named: String = text::concat3("journal ", name, " contained no complete lines (");
    let head: String = text::concat3(named.as_str(), text::decimal(len).as_str(), " bytes); ");
    FinalizeError::Atif(
        match failure {
            None => text::concat3(head.as_str(), "quarantined at ", aside),
            Some(words) => {
                let tried: String = text::concat3(head.as_str(), "quarantine rename to ", aside);
                let failed: String = text::concat3(tried.as_str(), " failed: ", words.as_str());
                text::concat3(failed.as_str(), "; bytes remain at ", name)
            },
        },
    )
}

/// The name under which a journal is set aside. `uid` is a fresh event id.
pub fn aside_name(name: &str, uid: &str) -> (aside: String)
    ensures
        aside@ == name@ + ".corrupt-"@ + uid@,
{
    text::concat3(name, ".corrupt-", uid)
}

/// The part of a name that the files of one session share, by the name of
/// its sidecar.
pub fn sidecar_stem(name: &str) -> (stem: Option<String>)
    ensures
        text::opt_text(stem) == text::without_suffix(name@, ".session.json"@),
{
    text::strip_suffix(name, ".session.json")
}

/// Whether a directory holds a journal of this stem that was set aside.
pub open spec fn sibling_exists(names: Seq<Seq<char>>, stem: Seq<char>) -> bool {
    exists|i: int| 0 <= i < names.len() && text::has_prefix(#[trigger] names[i], stem + ".events.ndjson.corrupt-"@)
}

/// Whether a directory holds a journal of this stem that was set aside: then
/// an absent journal is not an empty one.
pub fn quarantine_sibling_exists(names: &Vec<String>, stem: &str) -> (exists: bool)
    ensures
        exists == sibling_exists(text::texts(names@), stem@),
{
    let prefix: String = text::concat2(stem, ".events.ndjson.corrupt-");
    let ghost all = text::texts(names@);
    let mut i: usize = 0;
    while i < names.len()
        invariant
            i <= names@.len(),
            all == text::texts(names@),
            prefix@ == stem@ + ".events.ndjson.corrupt-"@,
            forall|k: int| 0 <= k < i ==> !text::has_prefix(#[trigger] all[k], prefix@),
        decreases names.len() - i,
    {
        assert(all[i as int] == names@[i as int]@);
        if text::starts_with(names[i].as_str(), prefix.as_str()) {
            return true;
        }
        i += 1;
    }
    false
}

/// The first 32 digits of a hexadecimal digest: the stem of the files of the
/// session whose id has that digest.
pub open spec fn stem_of(digest: Seq<char>) -> Seq<char> {
    if digest.len() < 32 {
        digest
    } else {
        digest.take(32)
    }
}

/// The stem of the files of a session, by the digest of its id.
pub fn spool_stem(digest: &str) -> (stem: String)
    ensures
        stem@ == stem_of(digest@),
{
    let chars: Vec<char> = text::chars_of(digest);
    let mut stem = String::new();
    let mut i: usize = 0;
    while i < chars.len() && i < 32
        invariant
            chars@ == digest@,
            i <= chars@.len(),
            i <= 32,
            stem@ == digest@.take(i as int),
        decreases chars.len() - i,
    {
        stem.push(chars[i]);
        assert(stem@ =~= digest@.take(i + 1));
        i += 1;
    }
    assert(stem@ =~= stem_of(digest@));
    stem
}

/// The files that an open session keeps beside its acknowledgments.
pub open spec fn session_files(stem: Seq<char>) -> Seq<Seq<char>> {
    seq![stem + ".session.json"@, stem + ".steps.ndjson"@, stem + ".events.ndjson"@]
}

/// The files that are removed once a session is finalized.
pub fn step_journal_files(stem: &str) -> (files: Vec<String>)
    ensures
        text::texts(files@) == session_files(stem@),
{
    let mut files: Vec<String> = Vec::new();
    files.push(text::concat2(stem, ".session.json"));
    files.push(text::concat2(stem, ".steps.ndjson"));
    files.push(text::concat2(stem, ".events.ndjson"));
    assert(text::texts(files@) =~= session_files(stem@));
    files
}

/// The name of the receipt of a session, by its stem.
pub fn receipt_name(stem: &str) -> (name: String)
    ensures
        name@ == stem@ + ".json"@,
{
    text::concat2(stem, ".json")
}

/// The name of an outbox of a session, by its stem and the kind of event.
pub open spec fn outbox_name(stem: Seq<char>, kind: Seq<char>) -> Seq<char> {
    stem + "."@ + kind + ".json"@
}

/// The name of the outbox for a lifecycle event of a session.
pub fn lifecycle_outbox_name(digest: &str, kind: &str) -> (name: String)
    ensures
        name@ == outbox_name(stem_of(digest@), kind@),
{
    let stem: String = spool_stem(digest);
    let head: String = text::concat3(stem.as_str(), ".", kind);
    text::concat2(head.as_str(), ".json")
}

/// Whether a file name has this extension: something, a dot, the extension.
pub open spec fn has_extension(name: Seq<char>, dotted: Seq<char>) -> bool {
    name.len() > dotted.len() && text::has_suffix(name, dotted)
}

/// Whether a file name has an extension, which is given with its dot.
fn ends_in_extension(name: &str, dotted: &str) -> (has: bool)
    ensures
        has == has_extension(name@, dotted@),
{
    proof {
        if name@.len() == dotted@.len() {
            assert(name@.skip(0) =~= name@);
        }
    }
    text::ends_with(name, dotted) && !text::same_text(name, dotted)
}

/// Whether a file may be a trajectory: a JSON file that is not the sidecar of
/// an open session.
pub fn may_be_trajectory(name: &str) -> (may: bool)
    ensures
        may == (has_extension(name@, ".json"@) && !text::has_suffix(name@, ".session.json"@)),
{
    ends_in_extension(name, ".json") && !text::ends_with(name, ".session.json")
}

/// Whether a file is a promotion marker.
pub fn is_promotion_marker(name: &str) -> (is: bool)
    ensures
        is == has_extension(name@, ".promote"@),
{
    ends_in_extension(name, ".promote")
}

/// Whether a file is a JSON file, as outboxes are.
pub fn is_json_file(name: &str) -> (is: bool)
    ensures
        is == has_extension(name@, ".json"@),
{
    ends_in_extension(name, ".json")
}

/// How many artifacts are remembered as warned about.
pub const WARNED_ARTIFACTS_CAP: usize = 4096;

/// Artifacts that have been warned about, the oldest first. When it is full,
/// the oldest one gives way to a new one.
#[derive(Debug)]
pub struct WarnedArtifacts {
    order: Vec<String>,
    cap: usize,
}

/// A [`WarnedArtifacts`] by its contents.
#[verifier::ext_equal]
pub struct WarnedView {
    pub order: Seq<Seq<char>>,
    pub cap: nat,
}

impl View for WarnedArtifacts {
    type V = WarnedView;

    closed spec fn view(&self) -> WarnedView {
        WarnedView { order: text::texts(self.order@), cap: self.cap as nat }
    }
}

impl WarnedView {
    /// There is room for at least one, no more than fit, and none twice.
    pub open spec fn wf(self) -> bool {
        self.cap >= 1 && self.order.len() <= self.cap && self.order.no_duplicates()
    }

    /// What is remembered once an artifact has come up.
    pub open spec fn with(self, path: Seq<char>) -> WarnedView {
        if self.order.contains(path) {
            self
        } else if self.order.len() >= self.cap {
            WarnedView { order: self.order.skip(1).push(path), ..self }
        } else {
            WarnedView { order: self.order.push(path), ..self }
        }
    }
}

impl WarnedArtifacts {
    /// Remembers nothing yet, and so many at most; at least one.
    pub fn new(cap: usize) -> (warned: WarnedArtifacts)
        ensures
            warned@.order == Seq::<Seq<char>>::empty(),
            warned@.cap == (if cap == 0 {
                1
            } else {
                cap as nat
            }),
            warned@.wf(),
    {
        let cap: usize = if cap == 0 {
            1
        } else {
            cap
        };
        let warned = WarnedArtifacts { order: Vec::new(), cap };
        assert(warned@.order =~= Seq::empty());
        warned
    }

    /// Remembers an artifact; tells whether it is to be warned about.
    pub fn insert(&mut self, path: String) -> (new: bool)
        requires
            old(self)@.wf(),
        ensures
            final(self)@ == old(self)@.with(path@),
            new == !old(self)@.order.contains(path@),
            final(self)@.wf(),
    {
        if text::list_holds(&self.order, path.as_str()) {
            return false;
        }
        let ghost before = text::texts(self.order@);
        if self.order.len() >= self.cap {
            let _ = self.order.remove(0);
            assert(text::texts(self.order@) =~= before.skip(1));
        }
        let ghost kept = text::texts(self.order@);
        self.order.push(path);
        proof {
            assert(text::texts(self.order@) =~= kept.push(path@));
            if before.len() >= self.cap {
                lemma_push_unique(before.skip(1), path@);
            } else {
                lemma_push_unique(before, path@);
            }
        }
        true
    }

    /// How many artifacts are remembered.
    pub fn len(&self) -> (n: usize)
        ensures
            n == self@.order.len(),
    {
        self.order.len()
    }
}

/// A list without repetitions has none once something new is put behind it.
proof fn lemma_push_unique(s: Seq<Seq<char>>, item: Seq<char>)
    requires
        s.no_duplicates(),
        !s.contains(item),
    ensures
        s.push(item).no_duplicates(),
{
    assert forall|i: int, j: int| 0 <= i < s.len() + 1 && 0 <= j < s.len() + 1 && i != j implies s.push(item)[i]
        != s.push(item)[j] by {
        if i < s.len() {
            assert(s.contains(s[i]));
        }
        if j < s.len() {
            assert(s.contains(s[j]));
        }
    }
}

/// A new artifact makes at most one older one forgotten, the oldest; every
/// other one stays remembered.
pub proof fn law_one_artifact_is_forgotten_at_a_time(warned: WarnedView, path: Seq<char>, other: Seq<char>)
    requires
        warned.wf(),
        warned.order.contains(other),
    ensures
        warned.with(path).order.contains(path),
        warned.with(path).order.contains(other) || other == warned.order[0],
        warned.with(path).wf(),
{
    let after = warned.with(path);
    if !warned.order.contains(path) {
        assert(after.order.last() == path);
        let i = warned.order.index_of(other);
        if warned.order.len() >= warned.cap {
            if i > 0 {
                assert(after.order[i - 1] == other);
            }
            assert(!warned.order.skip(1).contains(path)) by {
                if warned.order.skip(1).contains(path) {
                    let k = warned.order.skip(1).index_of(path);
                    assert(warned.order[k + 1] == path);
                }
            }
            lemma_push_unique(warned.order.skip(1), path);
        } else {
            assert(after.order[i] == other);
            lemma_push_unique(warned.order, path);
        }
    }
}

/// What is remembered once artifacts have come up one after another.
pub open spec fn warned_after(start: WarnedView, paths: Seq<Seq<char>>) -> WarnedView
    decreases paths.len(),
{
    if paths.len() == 0 {
        start
    } else {
        warned_after(start, paths.drop_last()).with(paths.last())
    }
}

/// Whether an artifact is warned about when it comes up as the one of this
/// number.
pub open spec fn warns_at(start: WarnedView, paths: Seq<Seq<char>>, i: int) -> bool {
    !warned_after(start, paths.take(i)).order.contains(paths[i])
}

/// What is remembered after a run: nothing that did not come up, no fewer
/// than fit, and all of them where all fit.
proof fn lemma_warned_after(cap: nat, paths: Seq<Seq<char>>)
    requires
        cap >= 1,
    ensures
        ({
            let end = warned_after(WarnedView { order: Seq::empty(), cap }, paths);
            let seen = paths.to_set();
            &&& seen.finite()
            &&& end.wf() && end.cap == cap
            &&& end.order.to_set().subset_of(seen)
            &&& end.order.len() == (if seen.len() <= cap {
                seen.len()
            } else {
                cap
            })
            &&& seen.len() <= cap ==> end.order.to_set() == seen
        }),
    decreases paths.len(),
{
    let start = WarnedView { order: Seq::<Seq<char>>::empty(), cap };
    vstd::seq_lib::seq_to_set_is_finite(paths);
    if paths.len() == 0 {
        assert(paths.to_set() =~= Set::empty());
        assert(start.order.to_set() =~= Set::empty());
    } else {
        let front = paths.drop_last();
        let path = paths.last();
        lemma_warned_after(cap, front);
        vstd::seq_lib::seq_to_set_is_finite(front);
        let before = warned_after(start, front);
        let after = before.with(path);
        front.lemma_push_to_set_commute(path);
        assert(front.push(path) =~= paths);
        assert(paths.to_set() == front.to_set().insert(path));
        assert(before.order.to_set().contains(path) == before.order.contains(path));
        if before.order.contains(path) {
            assert(paths.to_set() =~= front.to_set());
        } else {
            before.order.lemma_push_to_set_commute(path);
            if before.order.len() >= cap {
                let kept = before.order.skip(1);
                kept.lemma_push_to_set_commute(path);
                assert(!kept.contains(path)) by {
                    if kept.contains(path) {
                        let k = kept.index_of(path);
                        assert(before.order[k + 1] == path);
                    }
                }
                lemma_push_unique(kept, path);
                assert forall|x: Seq<char>| kept.to_set().contains(x) implies before.order.to_set().contains(x) by {
                    let k = kept.index_of(x);
                    assert(before.order[k + 1] == x);
                }
            } else {
                lemma_push_unique(before.order, path);
            }
        }
    }
}

/// However many artifacts come up, as many are remembered as there are
/// different ones, or as fit, where these are fewer.
pub proof fn law_as_many_artifacts_are_remembered_as_fit(cap: nat, paths: Seq<Seq<char>>)
    requires
        cap >= 1,
    ensures
        paths.to_set().finite(),
        warned_after(WarnedView { order: Seq::empty(), cap }, paths).order.len() == (if paths.to_set().len() <= cap {
            paths.to_set().len()
        } else {
            cap
        }),
{
    lemma_warned_after(cap, paths);
}

/// Where all the artifacts that come up fit, each of them is warned about
/// once: when it comes up first.
pub proof fn law_artifacts_are_warned_about_once(cap: nat, paths: Seq<Seq<char>>)
    requires
        cap >= 1,
        paths.to_set().len() <= cap,
    ensures
        forall|i: int|
            0 <= i < paths.len() ==> #[trigger] warns_at(WarnedView { order: Seq::empty(), cap }, paths, i) == !paths.take(
                i,
            ).contains(paths[i]),
        forall|path: Seq<char>| #[trigger]
            paths.contains(path) ==> exists|i: int|
                0 <= i < paths.len() && #[trigger] warns_at(WarnedView { order: Seq::empty(), cap }, paths, i)
                    && paths[i] == path && forall|j: int|
                    0 <= j < paths.len() && paths[j] == path && #[trigger] warns_at(
                        WarnedView { order: Seq::empty(), cap },
                        paths,
                        j,
                    ) ==> j == i,
{
    let start = WarnedView { order: Seq::<Seq<char>>::empty(), cap };
    vstd::seq_lib::seq_to_set_is_finite(paths);
    assert forall|i: int| 0 <= i < paths.len() implies #[trigger] warns_at(start, paths, i) == !paths.take(i).contains(
        paths[i],
    ) by {
        let front = paths.take(i);
        lemma_warned_after(cap, front);
        assert forall|x: Seq<char>| front.to_set().contains(x) implies paths.to_set().contains(x) by {
            let k = front.index_of(x);
            assert(paths[k] == x);
        }
        vstd::set_lib::lemma_len_subset(front.to_set(), paths.to_set());
        let end = warned_after(start, front);
        assert(end.order.to_set().contains(paths[i]) == end.order.contains(paths[i]));
        assert(front.to_set().contains(paths[i]) == front.contains(paths[i]));
    }
    assert forall|path: Seq<char>| #[trigger] paths.contains(path) implies exists|i: int|
        0 <= i < paths.len() && #[trigger] warns_at(start, paths, i) && paths[i] == path && forall|j: int|
            0 <= j < paths.len() && paths[j] == path && #[trigger] warns_at(start, paths, j) ==> j == i by {
        paths.index_of_first_ensures(path);
        let i = paths.index_of_first(path)->0;
        assert(!paths.take(i).contains(path));
        assert(warns_at(start, paths, i));
        assert forall|j: int| 0 <= j < paths.len() && paths[j] == path && #[trigger] warns_at(start, paths, j) implies j
            == i by {
            if j > i {
                assert(paths.take(j)[i] == path);
            }
            if j < i {
                assert(paths.take(i)[j] == path);
            }
        }
    }
}

/// A journal is read up to its last line end, and what comes behind it is cut
/// off. One without a line end is set aside, never cut to nothing, and an
/// empty one is left alone.
pub proof fn law_journals_are_read_to_the_last_line_end(bytes: Seq<u8>)
    requires
        bytes.len() <= usize::MAX,
    ensures
        journal_plan(bytes) is Empty <==> bytes.len() == 0,
        journal_plan(bytes) is SetAside <==> bytes.len() > 0 && forall|i: int| 0 <= i < bytes.len() ==> #[trigger] bytes[i] != 10,
        journal_plan(bytes) matches JournalPlan::Read { keep, trim } ==> {
            &&& 0 < keep <= bytes.len()
            &&& bytes[keep - 1] == 10
            &&& forall|i: int| keep <= i < bytes.len() ==> #[trigger] bytes[i] != 10
            &&& trim <==> keep < bytes.len()
        },
{
    lemma_complete_end(bytes);
    if forall|i: int| 0 <= i < bytes.len() ==> #[trigger] bytes[i] != 10 {
        if complete_end(bytes) > 0 {
            assert(bytes[complete_end(bytes) - 1] != 10);
        }
    }
}

/// The files of a session go by the first thirty-two characters of the digest
/// of its id.
pub proof fn law_spools_are_named_by_the_digest(digest: Seq<char>)
    ensures
        text::has_prefix(digest, stem_of(digest)),
        digest.len() >= 32 ==> stem_of(digest).len() == 32,
        digest.len() < 32 ==> stem_of(digest) == digest,
{
    assert(digest.take(stem_of(digest).len() as int) =~= stem_of(digest));
}

/// Journals are told apart by their ends, and so are sessions by their stems:
/// no file of one session is a file of another with a stem of the same
/// length.
pub proof fn law_session_files_are_not_shared(a: Seq<char>, b: Seq<char>, i: int, j: int)
    requires
        0 <= i < 3,
        0 <= j < 3,
        a.len() == b.len(),
        session_files(a)[i] == session_files(b)[j],
    ensures
        a == b,
{
    assert(session_files(a)[i].take(a.len() as int) =~= a);
    assert(session_files(b)[j].take(b.len() as int) =~= b);
}

/// The outboxes of a session are told apart by the kind of their event.
pub proof fn law_outboxes_are_not_shared(stem: Seq<char>, a: Seq<char>, b: Seq<char>)
    requires
        outbox_name(stem, a) == outbox_name(stem, b),
    ensures
        a == b,
{
    let x = outbox_name(stem, a);
    let y = outbox_name(stem, b);
    let from = stem.len() + "."@.len();
    assert(x.len() == from + a.len() + ".json"@.len());
    assert(y.len() == from + b.len() + ".json"@.len());
    assert(x.subrange(from as int, (from + a.len()) as int) =~= a);
    assert(y.subrange(from as int, (from + b.len()) as int) =~= b);
}

/// The words for a journal without a complete line name the file, and tell
/// where its bytes are now: set aside, or still where they were.
pub proof fn law_torn_journals_are_told(name: Seq<char>, aside: Seq<char>, len: nat, words: Seq<char>)
    ensures
        text::has_prefix(torn_words(name, aside, len, None), "journal "@ + name),
        text::has_suffix(torn_words(name, aside, len, None), "quarantined at "@ + aside),
        text::has_prefix(torn_words(name, aside, len, Some(words)), "journal "@ + name),
        text::has_suffix(torn_words(name, aside, len, Some(words)), "; bytes remain at "@ + name),
{
    let head = "journal "@ + name;
    let done = torn_words(name, aside, len, None);
    let failed = torn_words(name, aside, len, Some(words));
    assert(done.take(head.len() as int) =~= head);
    assert(failed.take(head.len() as int) =~= head);
    let a = "quarantined at "@ + aside;
    let b = "; bytes remain at "@ + name;
    assert(done.skip(done.len() - a.len()) =~= a);
    assert(failed.skip(failed.len() - b.len()) =~= b);
}

/// A session keeps its metadata, its steps and its events in a file each,
/// named for its stem.
pub proof fn law_sessions_keep_three_files(stem: Seq<char>)
    ensures
        session_files(stem).len() == 3,
        session_files(stem).contains(stem + ".session.json"@),
        session_files(stem).contains(stem + ".steps.ndjson"@),
        session_files(stem).contains(stem + ".events.ndjson"@),
{
    assert(session_files(stem)[0] == stem + ".session.json"@);
    assert(session_files(stem)[1] == stem + ".steps.ndjson"@);
    assert(session_files(stem)[2] == stem + ".events.ndjson"@);
}

/// A journal that was set aside stays known by the name that it got.
pub proof fn law_journals_set_aside_are_found(names: Seq<Seq<char>>, stem: Seq<char>, uid: Seq<char>, i: int)
    requires
        0 <= i < names.len(),
    ensures
        names[i] == stem + ".events.ndjson.corrupt-"@ + uid ==> sibling_exists(names, stem),
        sibling_exists(names, stem) ==> exists|k: int| 0 <= k < names.len() && (#[trigger] names[k]).len() >= stem.len() + 23
            && names[k].take(stem.len() as int) == stem,
{
    let mark = stem + ".events.ndjson.corrupt-"@;
    reveal_strlit(".events.ndjson.corrupt-");
    if names[i] == mark + uid {
        assert((mark + uid).take(mark.len() as int) =~= mark);
        assert(text::has_prefix(names[i], mark));
    }
    if sibling_exists(names, stem) {
        let k = choose|k: int| 0 <= k < names.len() && text::has_prefix(#[trigger] names[k], mark);
        assert(names[k].take(mark.len() as int) == mark);
        assert(names[k].take(stem.len() as int) =~= mark.take(stem.len() as int));
        assert(mark.take(stem.len() as int) =~= stem);
    }
}

} // verus!
