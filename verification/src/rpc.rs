//! The ids of JSON-RPC calls, and their texts.

use vstd::prelude::*;
use crate::json;
use crate::json::{Json, JsonTree};

verus! {

/// The id of a JSON-RPC call: as a document, and as it is written.
#[derive(Debug)]
pub struct RpcId {
    document: Json,
    written: String,
}

impl View for RpcId {
    type V = JsonTree;

    closed spec fn view(&self) -> JsonTree {
        self.document@
    }
}

/// The text under which a call with this id is written down: a text as it
/// is, anything else as JSON. `written` is the id as JSON.
pub open spec fn shown_id(id: JsonTree, written: Seq<char>) -> Seq<char> {
    match id {
        JsonTree::Text(s) => s,
        _ => written,
    }
}

/// The text under which a call with this id is written down.
pub fn id_text(id: &Json, written: &str) -> (shown: String)
    ensures
        shown@ == shown_id(id@, written@),
{
    match id {
        Json::Text(s) => s.clone(),
        _ => written.to_owned(),
    }
}

impl RpcId {
    /// The id as JSON is what `serde_json` writes for the document.
    #[verifier::type_invariant]
    spec fn is_written(self) -> bool {
        self.written@ == json::json_text(self.document@)
    }

    /// The id that a value is.
    pub fn of(value: serde_json::Value) -> (id: RpcId)
        ensures
            id@ == json::value_tree(value),
    {
        let written: String = json::text_of_value(&value);
        RpcId { document: json::json_of_value(value), written }
    }

    /// The id as a document.
    pub fn document(&self) -> (document: &Json)
        ensures
            document@ == self@,
    {
        &self.document
    }

    /// The id as JSON.
    pub fn written(&self) -> (written: &String)
        ensures
            written@ == json::json_text(self@),
    {
        proof {
            use_type_invariant(self);
        }
        &self.written
    }

    /// The text under which the call is written down.
    pub fn shown(&self) -> (shown: String)
        ensures
            shown@ == shown_id(self@, json::json_text(self@)),
    {
        id_text(self.document(), self.written().as_str())
    }
}

/// An optional id by its tree.
pub open spec fn opt_id(id: Option<RpcId>) -> Option<JsonTree> {
    match id {
        Some(id) => Some(id@),
        None => None,
    }
}

/// An id that is a text is shown as that text, any other as it is written.
pub proof fn law_ids_are_shown(id: JsonTree, written: Seq<char>)
    ensures
        id matches JsonTree::Text(s) ==> shown_id(id, written) == s,
        !(id is Text) ==> shown_id(id, written) == written,
{
}

} // verus!
