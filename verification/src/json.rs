//! JSON documents: the tree that the harness reads request and response
//! bodies through, and the parser behind it.

use vstd::prelude::*;
use crate::text;

verus! {

/// A JSON number as the readings of it that the harness uses: as an unsigned
/// integer, as a signed integer, and as the bits of a double.
#[derive(Clone, Copy, Debug)]
pub struct JsonNumber {
    /// The value, where it is an integer from 0 up to `u64::MAX`.
    pub unsigned: Option<u64>,
    /// The value, where it is an integer that fits `i64`.
    pub signed: Option<i64>,
    /// The IEEE 754 bits of the nearest double.
    pub double_bits: Option<u64>,
}

/// A JSON document.
#[derive(Debug)]
pub enum Json {
    Null,
    Bool(bool),
    Number(JsonNumber),
    Text(String),
    List(Vec<Json>),
    Object(Vec<(String, Json)>),
}

/// What a JSON document is, as a mathematical tree.
#[verifier::ext_equal]
pub enum JsonTree {
    Null,
    Bool(bool),
    Number(JsonNumber),
    Text(Seq<char>),
    List(Seq<JsonTree>),
    Object(Seq<(Seq<char>, JsonTree)>),
}

impl Json {
    /// The tree that this document stands for.
    pub open spec fn tree(self) -> JsonTree
        decreases self,
    {
        match self {
            Json::Null => JsonTree::Null,
            Json::Bool(b) => JsonTree::Bool(b),
            Json::Number(n) => JsonTree::Number(n),
            Json::Text(s) => JsonTree::Text(s@),
            Json::List(items) => JsonTree::List(
                Seq::new(
                    items@.len(),
                    |i: int|
                        if 0 <= i < items@.len() {
                            items@[i].tree()
                        } else {
                            JsonTree::Null
                        },
                ),
            ),
            Json::Object(fields) => JsonTree::Object(
                Seq::new(
                    fields@.len(),
                    |i: int|
                        if 0 <= i < fields@.len() {
                            (fields@[i].0@, fields@[i].1.tree())
                        } else {
                            (Seq::empty(), JsonTree::Null)
                        },
                ),
            ),
        }
    }
}

impl View for Json {
    type V = JsonTree;

    open spec fn view(&self) -> JsonTree {
        self.tree()
    }
}

/// The first field called `key` in a list of fields.
pub open spec fn field(fields: Seq<(Seq<char>, JsonTree)>, key: Seq<char>) -> Option<JsonTree>
    decreases fields.len(),
{
    if fields.len() == 0 {
        None
    } else if fields[0].0 == key {
        Some(fields[0].1)
    } else {
        field(fields.skip(1), key)
    }
}

/// The field called `key` of an object; nothing else has fields.
pub open spec fn member(tree: JsonTree, key: Seq<char>) -> Option<JsonTree> {
    match tree {
        JsonTree::Object(fields) => field(fields, key),
        _ => None,
    }
}

/// The trees of the fields of an object.
pub open spec fn field_trees(fields: Seq<(String, Json)>) -> Seq<(Seq<char>, JsonTree)> {
    fields.map_values(|f: (String, Json)| (f.0@, f.1@))
}

/// A list of fields without those called `key`.
pub open spec fn fields_without(fields: Seq<(Seq<char>, JsonTree)>, key: Seq<char>) -> Seq<(Seq<char>, JsonTree)>
    decreases fields.len(),
{
    if fields.len() == 0 {
        Seq::empty()
    } else if fields.last().0 == key {
        fields_without(fields.drop_last(), key)
    } else {
        fields_without(fields.drop_last(), key).push(fields.last())
    }
}

/// A document without its fields called `key`; nothing else has fields.
pub open spec fn without(tree: JsonTree, key: Seq<char>) -> JsonTree {
    match tree {
        JsonTree::Object(fields) => JsonTree::Object(fields_without(fields, key)),
        _ => tree,
    }
}

/// The field `inner` of the field `outer` of an object.
pub open spec fn member2(tree: JsonTree, outer: Seq<char>, inner: Seq<char>) -> Option<JsonTree> {
    match member(tree, outer) {
        Some(found) => member(found, inner),
        None => None,
    }
}

/// The text of a string, where there is one.
pub open spec fn text_in(tree: Option<JsonTree>) -> Option<Seq<char>> {
    match tree {
        Some(JsonTree::Text(s)) => Some(s),
        _ => None,
    }
}

/// The items of an array, where there is one.
pub open spec fn items_in(tree: Option<JsonTree>) -> Option<Seq<JsonTree>> {
    match tree {
        Some(JsonTree::List(items)) => Some(items),
        _ => None,
    }
}

/// The value of an unsigned integer, where there is one.
pub open spec fn unsigned_in(tree: Option<JsonTree>) -> Option<u64> {
    match tree {
        Some(JsonTree::Number(n)) => n.unsigned,
        _ => None,
    }
}

/// The tree behind an optional reference.
pub open spec fn tree_at(found: Option<&Json>) -> Option<JsonTree> {
    match found {
        Some(value) => Some(value@),
        None => None,
    }
}

/// The trees of a list of documents.
pub open spec fn trees(items: Seq<Json>) -> Seq<JsonTree> {
    items.map_values(|j: Json| j@)
}

impl Json {
    /// The field called `key`, if this is an object that has one.
    pub fn get(&self, key: &str) -> (found: Option<&Json>)
        ensures
            tree_at(found) == member(self@, key@),
    {
        match self {
            Json::Object(fields) => {
                let ghost all = self@->Object_0;
                let mut i: usize = 0;
                assert(all.skip(0) =~= all);
                while i < fields.len()
                    invariant
                        i <= fields@.len(),
                        self@ == JsonTree::Object(all),
                        *self == Json::Object(*fields),
                        all.len() == fields@.len(),
                        field(all, key@) == field(all.skip(i as int), key@),
                    decreases fields.len() - i,
                {
                    assert(all[i as int] == (fields@[i as int].0@, fields@[i as int].1@));
                    assert(all.skip(i as int)[0] == all[i as int]);
                    assert(all.skip(i as int).skip(1) =~= all.skip(i + 1));
                    if text::same_text(fields[i].0.as_str(), key) {
                        return Some(&fields[i].1);
                    }
                    i += 1;
                }
                None
            },
            _ => None,
        }
    }

    /// A document with the same tree.
    pub fn copy(&self) -> (copy: Json)
        ensures
            copy@ == self@,
        decreases self,
    {
        match self {
            Json::Null => Json::Null,
            Json::Bool(b) => Json::Bool(*b),
            Json::Number(n) => Json::Number(*n),
            Json::Text(s) => Json::Text(s.clone()),
            Json::List(items) => {
                let mut copies: Vec<Json> = Vec::new();
                let mut i: usize = 0;
                while i < items.len()
                    invariant
                        i <= items@.len(),
                        *self == Json::List(*items),
                        copies@.len() == i,
                        forall|k: int| 0 <= k < i ==> copies@[k]@ == items@[k]@,
                    decreases items.len() - i,
                {
                    proof {
                        assert(decreases_to!(*self => (*self)->List_0));
                        assert(decreases_to!(*items => items@));
                        assert(decreases_to!(items@ => items@[i as int]));
                    }
                    copies.push(items[i].copy());
                    i += 1;
                }
                let copy = Json::List(copies);
                assert(copy@->List_0 =~= self@->List_0);
                copy
            },
            Json::Object(fields) => {
                let mut copies: Vec<(String, Json)> = Vec::new();
                let mut i: usize = 0;
                while i < fields.len()
                    invariant
                        i <= fields@.len(),
                        *self == Json::Object(*fields),
                        copies@.len() == i,
                        forall|k: int|
                            0 <= k < i ==> copies@[k].0@ == fields@[k].0@ && copies@[k].1@ == fields@[k].1@,
                    decreases fields.len() - i,
                {
                    proof {
                        assert(decreases_to!(*self => (*self)->Object_0));
                        assert(decreases_to!(*fields => fields@));
                        assert(decreases_to!(fields@ => fields@[i as int]));
                        assert(decreases_to!(fields@[i as int] => fields@[i as int].1));
                    }
                    copies.push((fields[i].0.clone(), fields[i].1.copy()));
                    i += 1;
                }
                let copy = Json::Object(copies);
                assert(copy@->Object_0 =~= self@->Object_0);
                copy
            },
        }
    }

    /// Whether two documents have the same tree.
    pub fn same(&self, other: &Json) -> (same: bool)
        ensures
            same == (self@ == other@),
        decreases self,
    {
        match (self, other) {
            (Json::Null, Json::Null) => true,
            (Json::Bool(a), Json::Bool(b)) => *a == *b,
            (Json::Number(a), Json::Number(b)) => {
                a.unsigned == b.unsigned && a.signed == b.signed && a.double_bits == b.double_bits
            },
            (Json::Text(a), Json::Text(b)) => text::same_text(a.as_str(), b.as_str()),
            (Json::List(a), Json::List(b)) => {
                let ghost x = self@->List_0;
                let ghost y = other@->List_0;
                assert(x.len() == a@.len() && y.len() == b@.len());
                if a.len() != b.len() {
                    return false;
                }
                let mut i: usize = 0;
                while i < a.len()
                    invariant
                        i <= a@.len(),
                        a@.len() == b@.len(),
                        *self == Json::List(*a),
                        *other == Json::List(*b),
                        self@ == JsonTree::List(x),
                        other@ == JsonTree::List(y),
                        forall|k: int| 0 <= k < i ==> x[k] == y[k],
                    decreases a.len() - i,
                {
                    proof {
                        assert(decreases_to!(*self => (*self)->List_0));
                        assert(decreases_to!(*a => a@));
                        assert(decreases_to!(a@ => a@[i as int]));
                        assert(x[i as int] == a@[i as int]@);
                        assert(y[i as int] == b@[i as int]@);
                    }
                    if !a[i].same(&b[i]) {
                        return false;
                    }
                    i += 1;
                }
                assert(x =~= y);
                true
            },
            (Json::Object(a), Json::Object(b)) => {
                let ghost x = self@->Object_0;
                let ghost y = other@->Object_0;
                assert(x.len() == a@.len() && y.len() == b@.len());
                if a.len() != b.len() {
                    return false;
                }
                let mut i: usize = 0;
                while i < a.len()
                    invariant
                        i <= a@.len(),
                        a@.len() == b@.len(),
                        *self == Json::Object(*a),
                        *other == Json::Object(*b),
                        self@ == JsonTree::Object(x),
                        other@ == JsonTree::Object(y),
                        forall|k: int| 0 <= k < i ==> x[k] == y[k],
                    decreases a.len() - i,
                {
                    proof {
                        assert(decreases_to!(*self => (*self)->Object_0));
                        assert(decreases_to!(*a => a@));
                        assert(decreases_to!(a@ => a@[i as int]));
                        assert(decreases_to!(a@[i as int] => a@[i as int].1));
                        assert(x[i as int] == (a@[i as int].0@, a@[i as int].1@));
                        assert(y[i as int] == (b@[i as int].0@, b@[i as int].1@));
                    }
                    if !text::same_text(a[i].0.as_str(), b[i].0.as_str()) || !a[i].1.same(&b[i].1) {
                        return false;
                    }
                    i += 1;
                }
                assert(x =~= y);
                true
            },
            _ => false,
        }
    }

    /// The document without its fields called `key`.
    pub fn without(&self, key: &str) -> (rest: Json)
        ensures
            rest@ == without(self@, key@),
    {
        match self {
            Json::Object(fields) => {
                let ghost all = self@->Object_0;
                let mut kept: Vec<(String, Json)> = Vec::new();
                let mut i: usize = 0;
                assert(all.take(0) =~= Seq::empty());
                assert(field_trees(kept@) =~= Seq::empty());
                while i < fields.len()
                    invariant
                        i <= fields@.len(),
                        *self == Json::Object(*fields),
                        self@ == JsonTree::Object(all),
                        all.len() == fields@.len(),
                        field_trees(kept@) == fields_without(all.take(i as int), key@),
                    decreases fields.len() - i,
                {
                    let ghost before = field_trees(kept@);
                    proof {
                        assert(all[i as int] == (fields@[i as int].0@, fields@[i as int].1@));
                        assert(all.take(i + 1).drop_last() =~= all.take(i as int));
                        assert(all.take(i + 1).last() == all[i as int]);
                    }
                    if !text::same_text(fields[i].0.as_str(), key) {
                        kept.push((fields[i].0.clone(), fields[i].1.copy()));
                        assert(field_trees(kept@) =~= before.push(all[i as int]));
                    }
                    i += 1;
                }
                assert(all.take(i as int) =~= all);
                let rest = Json::Object(kept);
                assert(rest@->Object_0 =~= field_trees(kept@));
                rest
            },
            _ => self.copy(),
        }
    }

    /// The field `inner` of the field `outer`.
    pub fn get2(&self, outer: &str, inner: &str) -> (found: Option<&Json>)
        ensures
            tree_at(found) == member2(self@, outer@, inner@),
    {
        match self.get(outer) {
            Some(value) => value.get(inner),
            None => None,
        }
    }
}

/// The text of a string.
pub fn as_text(value: Option<&Json>) -> (text: Option<String>)
    ensures
        text::opt_text(text) == text_in(tree_at(value)),
{
    match value {
        Some(Json::Text(s)) => Some(s.clone()),
        _ => None,
    }
}

/// The items of an array.
pub fn as_list(value: Option<&Json>) -> (items: Option<&Vec<Json>>)
    ensures
        match items {
            Some(list) => items_in(tree_at(value)) == Some(trees(list@)),
            None => items_in(tree_at(value)) is None,
        },
{
    match value {
        Some(Json::List(list)) => {
            assert(value.unwrap()@->List_0 =~= trees(list@));
            Some(list)
        },
        _ => None,
    }
}

/// The value of an unsigned integer.
pub fn as_unsigned(value: Option<&Json>) -> (n: Option<u64>)
    ensures
        n == unsigned_in(tree_at(value)),
{
    match value {
        Some(Json::Number(n)) => n.unsigned,
        _ => None,
    }
}

/// `serde_json::Value`, the parsed form of a document; its contents are
/// spoken of through [`value_tree`].
#[verifier::external_type_specification]
#[verifier::external_body]
pub struct ExValue(serde_json::Value);

/// The tree that a `serde_json::Value` holds.
pub uninterp spec fn value_tree(value: serde_json::Value) -> JsonTree;

/// What `serde_json::from_str` makes of a text: the tree of the document, or
/// the words in which it refuses the text.
pub uninterp spec fn json_document(text: Seq<char>) -> Result<JsonTree, Seq<char>>;

/// `serde_json::from_str::<serde_json::Value>`. The contract claims that the
/// text alone decides the outcome: the value read from it, or the words
/// (`Display`) of the error.
#[verifier::external_body]
fn read_value(text: &str) -> (read: Result<serde_json::Value, String>)
    ensures
        match read {
            Ok(value) => json_document(text@) == Ok::<JsonTree, Seq<char>>(value_tree(value)),
            Err(words) => json_document(text@) == Err::<JsonTree, Seq<char>>(words@),
        },
{
    serde_json::from_str::<serde_json::Value>(text).map_err(|error| error.to_string())
}

/// What `serde_json::from_slice` makes of bytes: the tree of the document, or
/// the words in which it refuses the bytes.
pub uninterp spec fn json_document_of_bytes(bytes: Seq<u8>) -> Result<JsonTree, Seq<char>>;

/// `serde_json::from_slice::<serde_json::Value>`. The contract claims that the
/// bytes alone decide the outcome: the value read from them, or the words
/// (`Display`) of the error.
#[verifier::external_body]
fn read_value_of_bytes(bytes: &[u8]) -> (read: Result<serde_json::Value, String>)
    ensures
        match read {
            Ok(value) => json_document_of_bytes(bytes@) == Ok::<JsonTree, Seq<char>>(value_tree(value)),
            Err(words) => json_document_of_bytes(bytes@) == Err::<JsonTree, Seq<char>>(words@),
        },
{
    serde_json::from_slice::<serde_json::Value>(bytes).map_err(|error| error.to_string())
}

/// What `serde_json::to_vec` makes of a value with this tree: its bytes, or
/// the words in which it refuses the value.
pub uninterp spec fn json_bytes(tree: JsonTree) -> Result<Seq<u8>, Seq<char>>;

/// `serde_json::to_vec` on a `serde_json::Value`. The contract claims that
/// the tree of the value alone decides the outcome: the bytes, or the words
/// (`Display`) of the error.
#[verifier::external_body]
pub(crate) fn write_value(value: &serde_json::Value) -> (written: Result<Vec<u8>, String>)
    ensures
        match written {
            Ok(bytes) => json_bytes(value_tree(*value)) == Ok::<Seq<u8>, Seq<char>>(bytes@),
            Err(words) => json_bytes(value_tree(*value)) == Err::<Seq<u8>, Seq<char>>(words@),
        },
{
    serde_json::to_vec(value).map_err(|error| error.to_string())
}

/// What `serde_json::Value` writes of itself, where it has this tree.
pub uninterp spec fn json_text(tree: JsonTree) -> Seq<char>;

/// `to_string` on a `serde_json::Value`: compact JSON. The contract claims
/// that the tree of the value alone decides the text.
#[verifier::external_body]
pub(crate) fn text_of_value(value: &serde_json::Value) -> (text: String)
    ensures
        text@ == json_text(value_tree(*value)),
{
    value.to_string()
}

/// Takes a `serde_json::Value` apart into a document of this crate, part for
/// part: a number by `as_u64`, `as_i64` and the bits of `as_f64`, an object
/// field by field in the order of its map. The contract claims that the
/// document has the tree of the value.
#[verifier::external_body]
pub(crate) fn json_of_value(value: serde_json::Value) -> (document: Json)
    ensures
        document@ == value_tree(value),
{
    match value {
        serde_json::Value::Null => Json::Null,
        serde_json::Value::Bool(b) => Json::Bool(b),
        serde_json::Value::Number(n) => {
            let double_bits = n.as_f64().map(|d| d.to_bits());
            Json::Number(JsonNumber { unsigned: n.as_u64(), signed: n.as_i64(), double_bits })
        },
        serde_json::Value::String(s) => Json::Text(s),
        serde_json::Value::Array(items) => Json::List(items.into_iter().map(json_of_value).collect()),
        serde_json::Value::Object(fields) => {
            Json::Object(fields.into_iter().map(|(k, v)| (k, json_of_value(v))).collect())
        },
    }
}

/// The bits of the double that is nearest to a whole number, as
/// `serde_json::Number::as_f64` gives it for one made from a `u64`.
pub uninterp spec fn nearest_double(n: u64) -> u64;

/// The readings of a whole number whose nearest double has these bits.
pub open spec fn whole_number(n: u64, bits: u64) -> JsonNumber {
    JsonNumber {
        unsigned: Some(n),
        signed: if n <= i64::MAX {
            Some(n as i64)
        } else {
            None
        },
        double_bits: Some(bits),
    }
}

/// `serde_json::Value::from` on a `u64`. The contract claims that the value
/// is a number, that it reads as `n` unsigned, as `n` signed where `n` fits,
/// and as the double that `n` alone decides.
#[verifier::external_body]
fn value_of_whole(n: u64) -> (value: serde_json::Value)
    ensures
        value_tree(value) == JsonTree::Number(whole_number(n, nearest_double(n))),
{
    serde_json::Value::from(n)
}

/// Whether one text comes before another, character by character.
pub open spec fn comes_before(a: Seq<char>, b: Seq<char>) -> bool {
    exists|k: int|
        #![trigger a.take(k)]
        0 <= k <= a.len() && k < b.len() && a.take(k) == b.take(k) && (k == a.len() || a[k] < b[k])
}

/// Whether a tree can be built part for part: its numbers are whole numbers
/// as they are read from a text, and the fields of its objects stand in the
/// order of their names.
pub open spec fn is_plain(tree: JsonTree) -> bool
    decreases tree,
{
    match tree {
        JsonTree::Number(n) => n.unsigned matches Some(u) && n == whole_number(u, nearest_double(u)),
        JsonTree::List(items) => forall|i: int| 0 <= i < items.len() ==> is_plain(#[trigger] items[i]),
        JsonTree::Object(fields) => {
            &&& forall|i: int| 0 <= i < fields.len() ==> is_plain((#[trigger] fields[i]).1)
            &&& forall|i: int| 0 <= i < fields.len() - 1 ==> comes_before((#[trigger] fields[i]).0, fields[i + 1].0)
        },
        _ => true,
    }
}

/// Builds a `serde_json::Value` from a document of this crate, part for part:
/// a number by `Value::from` on its unsigned reading, an object by collecting
/// its fields into a `serde_json::Map`. The contract claims that the value has
/// the tree of the document.
#[verifier::external_body]
fn value_of_json(document: &Json) -> (value: serde_json::Value)
    requires
        is_plain(document@),
    ensures
        value_tree(value) == document@,
{
    match document {
        Json::Null => serde_json::Value::Null,
        Json::Bool(b) => serde_json::Value::Bool(*b),
        Json::Number(n) => serde_json::Value::from(n.unsigned),
        Json::Text(s) => serde_json::Value::String(s.clone()),
        Json::List(items) => serde_json::Value::Array(items.iter().map(value_of_json).collect()),
        Json::Object(fields) => {
            serde_json::Value::Object(fields.iter().map(|(k, v)| (k.clone(), value_of_json(v))).collect())
        },
    }
}

/// A document as it is written.
pub(crate) fn written(document: &Json) -> (text: String)
    requires
        is_plain(document@),
    ensures
        text@ == json_text(document@),
{
    text_of_value(&value_of_json(document))
}

/// The document that holds one whole number.
pub fn whole(n: u64) -> (document: Json)
    ensures
        document@ == JsonTree::Number(whole_number(n, nearest_double(n))),
{
    json_of_value(value_of_whole(n))
}

/// The document that holds a whole number, or null.
pub fn whole_or_null(n: Option<u64>) -> (document: Json)
    ensures
        document@ == whole_or_null_tree(n),
{
    match n {
        Some(n) => whole(n),
        None => Json::Null,
    }
}

/// A whole number, or null.
pub open spec fn whole_or_null_tree(n: Option<u64>) -> JsonTree {
    match n {
        Some(n) => JsonTree::Number(whole_number(n, nearest_double(n))),
        None => JsonTree::Null,
    }
}

/// Reads a text as one JSON document.
pub fn parse_json(text: &str) -> (parsed: Result<Json, String>)
    ensures
        parsed_view(parsed) == json_document(text@),
{
    match read_value(text) {
        Ok(value) => Ok(json_of_value(value)),
        Err(words) => Err(words),
    }
}

/// Reads bytes as one JSON document.
pub fn parse_json_bytes(bytes: &[u8]) -> (parsed: Result<Json, String>)
    ensures
        parsed_view(parsed) == json_document_of_bytes(bytes@),
{
    match read_value_of_bytes(bytes) {
        Ok(value) => Ok(json_of_value(value)),
        Err(words) => Err(words),
    }
}

/// What was parsed, by its tree or its words.
pub open spec fn parsed_view(parsed: Result<Json, String>) -> Result<JsonTree, Seq<char>> {
    match parsed {
        Ok(document) => Ok(document@),
        Err(words) => Err(words@),
    }
}

/// A name stands for the first field of that name, and for nothing where
/// there is none; only an object has fields.
pub proof fn law_the_first_field_counts(fields: Seq<(Seq<char>, JsonTree)>, key: Seq<char>, i: int)
    ensures
        0 <= i < fields.len() && fields[i].0 == key && (forall|j: int| 0 <= j < i ==> (#[trigger] fields[j]).0 != key)
            ==> member(JsonTree::Object(fields), key) == Some(fields[i].1),
        (forall|j: int| 0 <= j < fields.len() ==> (#[trigger] fields[j]).0 != key) ==> member(JsonTree::Object(fields), key)
            is None,
    decreases fields.len(),
{
    if fields.len() > 0 && fields[0].0 != key {
        let rest = fields.skip(1);
        assert(forall|j: int| 0 <= j < rest.len() ==> #[trigger] rest[j] == fields[j + 1]);
        law_the_first_field_counts(rest, key, i - 1);
    } else if fields.len() > 0 {
        assert(i > 0 ==> fields[0].0 == key);
    }
}

/// Taking a field out leaves none of its name and every other, in order.
pub proof fn law_fields_are_taken_out(fields: Seq<(Seq<char>, JsonTree)>, key: Seq<char>)
    ensures
        forall|i: int| 0 <= i < fields_without(fields, key).len() ==> (#[trigger] fields_without(fields, key)[i]).0 != key,
        forall|i: int|
            0 <= i < fields.len() && (#[trigger] fields[i]).0 != key ==> fields_without(fields, key).contains(fields[i]),
        forall|i: int|
            0 <= i < fields_without(fields, key).len() ==> fields.contains(#[trigger] fields_without(fields, key)[i]),
        member(without(JsonTree::Object(fields), key), key) is None,
    decreases fields.len(),
{
    let rest = fields_without(fields, key);
    if fields.len() > 0 {
        let front = fields.drop_last();
        law_fields_are_taken_out(front, key);
        let before = fields_without(front, key);
        assert(forall|i: int| 0 <= i < front.len() ==> #[trigger] front[i] == fields[i]);
        assert(fields[fields.len() - 1] == fields.last());
        assert forall|i: int| 0 <= i < fields.len() && (#[trigger] fields[i]).0 != key implies rest.contains(fields[i]) by {
            if i < front.len() {
                assert(before.contains(front[i]));
                let k = choose|k: int| 0 <= k < before.len() && before[k] == front[i];
                assert(rest[k] == fields[i]);
            } else {
                assert(rest[rest.len() - 1] == fields[i]);
            }
        }
        assert forall|i: int| 0 <= i < rest.len() implies fields.contains(#[trigger] rest[i]) && rest[i].0 != key by {
            if i < before.len() {
                assert(rest[i] == before[i]);
                let k = choose|k: int| 0 <= k < front.len() && front[k] == before[i];
                assert(fields[k] == rest[i]);
            }
        }
    }
    law_the_first_field_counts(rest, key, 0);
}

/// A text is read from a string alone, items from an array alone, and a
/// count from a number alone.
pub proof fn law_values_are_read_by_their_kind(tree: JsonTree)
    ensures
        text_in(None) is None && items_in(None) is None && unsigned_in(None) is None,
        tree matches JsonTree::Text(s) ==> text_in(Some(tree)) == Some(s),
        tree !is Text ==> text_in(Some(tree)) is None,
        tree matches JsonTree::List(items) ==> items_in(Some(tree)) == Some(items),
        tree !is List ==> items_in(Some(tree)) is None,
        tree matches JsonTree::Number(n) ==> unsigned_in(Some(tree)) == n.unsigned,
        tree !is Number ==> unsigned_in(Some(tree)) is None,
{
}

} // verus!
