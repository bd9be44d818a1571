//! What receipts attest, and the event that announces one.

use vstd::prelude::*;
use crate::artifact;
use crate::json;
use crate::json::{Json, JsonTree};
use crate::text;

verus! {

/// What a receipt attests.
#[derive(Debug)]
pub enum Subject {
    /// A chain of events, by its head and its length.
    Chain { head: String, count: u64 },
    /// A trajectory, by the digest of its bytes and the number of its steps.
    /// It is retroactive where the trajectory was written before anyone asked
    /// for a receipt.
    Trajectory { digest: String, steps: u64, retroactive: bool },
}

/// A [`Subject`] by its contents.
#[verifier::ext_equal]
pub enum SubjectView {
    Chain { head: Seq<char>, count: u64 },
    Trajectory { digest: Seq<char>, steps: u64, retroactive: bool },
}

impl View for Subject {
    type V = SubjectView;

    open spec fn view(&self) -> SubjectView {
        match self {
            Subject::Chain { head, count } => SubjectView::Chain { head: head@, count: *count },
            Subject::Trajectory { digest, steps, retroactive } => SubjectView::Trajectory {
                digest: digest@,
                steps: *steps,
                retroactive: *retroactive,
            },
        }
    }
}

impl Subject {
    /// Whether two receipts attest the same.
    pub fn same(&self, other: &Subject) -> (same: bool)
        ensures
            same == (self@ == other@),
    {
        match (self, other) {
            (Subject::Chain { head, count }, Subject::Chain { head: h, count: c }) => {
                *count == *c && text::same_text(head.as_str(), h.as_str())
            },
            (
                Subject::Trajectory { digest, steps, retroactive },
                Subject::Trajectory { digest: d, steps: s, retroactive: r },
            ) => *steps == *s && *retroactive == *r && text::same_text(digest.as_str(), d.as_str()),
            _ => false,
        }
    }
}

/// The body of the event that announces a receipt. The subject and the
/// receipt itself are documents as the receipt is written.
pub open spec fn announcement(receipt_id: Seq<char>, key_id: Seq<char>, subject: JsonTree, receipt: JsonTree) -> JsonTree {
    JsonTree::Object(
        seq![
            artifact::text_field("key_id"@, key_id),
            ("receipt"@, receipt),
            artifact::text_field("receipt_id"@, receipt_id),
            ("subject"@, subject),
        ],
    )
}

/// The body of the event that announces a receipt.
pub fn announcement_document(receipt_id: &str, key_id: &str, subject: Json, receipt: Json) -> (document: Json)
    ensures
        document@ == announcement(receipt_id@, key_id@, subject@, receipt@),
{
    let mut fields: Vec<(String, Json)> = Vec::new();
    assert(json::field_trees(fields@) =~= Seq::empty());
    artifact::put_text(&mut fields, "key_id", key_id);
    artifact::put(&mut fields, "receipt", receipt);
    artifact::put_text(&mut fields, "receipt_id", receipt_id);
    artifact::put(&mut fields, "subject", subject);
    assert(json::field_trees(fields@) =~= announcement(receipt_id@, key_id@, subject@, receipt@)->Object_0);
    artifact::object(fields)
}

/// The announcement of a receipt names it, the key that signed it, what it
/// attests, and holds it whole.
pub proof fn law_announcements_hold_the_receipt(receipt_id: Seq<char>, key_id: Seq<char>, subject: JsonTree, receipt: JsonTree)
    ensures
        ({
            let body = announcement(receipt_id, key_id, subject, receipt);
            &&& json::member(body, "receipt_id"@) == Some(JsonTree::Text(receipt_id))
            &&& json::member(body, "key_id"@) == Some(JsonTree::Text(key_id))
            &&& json::member(body, "subject"@) == Some(subject)
            &&& json::member(body, "receipt"@) == Some(receipt)
        }),
{
    reveal_strlit("key_id");
    reveal_strlit("receipt");
    reveal_strlit("receipt_id");
    reveal_strlit("subject");
    assert("key_id"@[0] == 'k' && "receipt"@.len() == 7 && "receipt_id"@.len() == 10 && "subject"@[0] == 's');
    assert("receipt"@[0] == 'r' && "receipt_id"@[0] == 'r');
    let fields = announcement(receipt_id, key_id, subject, receipt)->Object_0;
    assert(fields.skip(1)[0] == fields[1]);
    assert(fields.skip(1).skip(1)[0] == fields[2]);
    assert(fields.skip(1).skip(1).skip(1)[0] == fields[3]);
    reveal_with_fuel(json::field, 5);
}

} // verus!
