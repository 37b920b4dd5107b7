//! JSON documents as trees, and the two calls into `serde_json` that turn
//! text into a tree and a tree into text.

use vstd::prelude::*;
use vstd::string::*;

verus! {

/// A JSON value as this protocol reads it.
///
/// An object keeps its fields in the order in which they are written. A
/// number is kept only when it is an integer from 0 to 2^64 - 1, which is all
/// that the protocol ever reads; any other number is an `OtherNumber`.
#[derive(Debug, PartialEq, Eq)]
pub enum Json {
    Null,
    Bool(bool),
    Number(u64),
    /// A number that is negative, has a fraction or an exponent, or is too
    /// large; its value is not kept.
    OtherNumber,
    Text(String),
    List(Vec<Json>),
    Object(Vec<(String, Json)>),
}

/// The fields of an object, in the order in which they are written: pairs
/// of a key and a tree.
pub type Fields = Seq<(Seq<char>, JsonView)>;

/// A JSON value as a mathematical tree.
pub enum JsonView {
    Null,
    Bool(bool),
    Number(u64),
    OtherNumber,
    Text(Seq<char>),
    List(Seq<JsonView>),
    Object(Fields),
}

/// The tree that `json` stands for.
pub open spec fn tree_of(json: Json) -> JsonView
    decreases json,
{
    match json {
        Json::Null => JsonView::Null,
        Json::Bool(b) => JsonView::Bool(b),
        Json::Number(n) => JsonView::Number(n),
        Json::OtherNumber => JsonView::OtherNumber,
        Json::Text(s) => JsonView::Text(s@),
        Json::List(items) => JsonView::List(items_view(items@)),
        Json::Object(fields) => JsonView::Object(fields_view(fields@)),
    }
}

/// The items of a list as trees.
pub open spec fn items_view(items: Seq<Json>) -> Seq<JsonView>
    decreases items,
{
    if items.len() == 0 {
        Seq::empty()
    } else {
        items_view(items.drop_last()).push(tree_of(items.last()))
    }
}

/// The fields of an object as pairs of a key and a tree.
pub open spec fn fields_view(fields: Seq<(String, Json)>) -> Fields
    decreases fields,
{
    if fields.len() == 0 {
        Seq::empty()
    } else {
        fields_view(fields.drop_last()).push((fields.last().0@, tree_of(fields.last().1)))
    }
}

impl View for Json {
    type V = JsonView;

    open spec fn view(&self) -> JsonView {
        tree_of(*self)
    }
}

/// The trees of the items stand at the places of the items.
pub proof fn lemma_items_view(items: Seq<Json>)
    ensures
        items_view(items).len() == items.len(),
        forall|i: int| 0 <= i < items.len() ==> (#[trigger] items_view(items)[i]) == items[i]@,
    decreases items.len(),
{
    if items.len() > 0 {
        lemma_items_view(items.drop_last());
    }
}

/// The keys and trees of the fields stand at the places of the fields.
pub proof fn lemma_fields_view(fields: Seq<(String, Json)>)
    ensures
        fields_view(fields).len() == fields.len(),
        forall|i: int|
            0 <= i < fields.len() ==> (#[trigger] fields_view(fields)[i]) == (
                fields[i].0@,
                fields[i].1@,
            ),
    decreases fields.len(),
{
    if fields.len() > 0 {
        lemma_fields_view(fields.drop_last());
    }
}

impl JsonView {
    /// Whether every number in the tree is kept with its value.
    pub open spec fn exact(self) -> bool
        decreases self,
    {
        match self {
            JsonView::OtherNumber => false,
            JsonView::List(items) => forall|i: int|
                0 <= i < items.len() ==> (#[trigger] items[i]).exact(),
            JsonView::Object(fields) => forall|i: int|
                0 <= i < fields.len() ==> (#[trigger] fields[i]).1.exact(),
            _ => true,
        }
    }
}

/// `serde_json::Value`, the JSON value of `serde_json`. Nothing is known of
/// what one holds: it is only handed on.
#[verifier::external_type_specification]
#[verifier::external_body]
pub struct ExValue(serde_json::Value);

/// `serde_json::Error`, the error of the reader and the writer of
/// `serde_json`. Nothing is known of what one holds.
#[verifier::external_type_specification]
#[verifier::external_body]
pub struct ExError(serde_json::Error);

/// The tree that `serde_json::from_str` reads from `text`, or `None` where
/// it refuses the text.
pub uninterp spec fn json_parse(text: Seq<char>) -> Option<JsonView>;

/// The text that `serde_json::to_string` writes for `tree`, or `None` where
/// it refuses the tree.
pub uninterp spec fn json_text(tree: JsonView) -> Option<Seq<char>>;

/// Copies a `serde_json::Value` into a `Json`, node for node; `parse` calls
/// it on what the reader hands out. A number becomes a `Number` where
/// `serde_json::Number::as_u64` gives its value and an `OtherNumber` where it
/// gives none. The fields of an object come in the order in which
/// `serde_json::Map::iter` hands them out, which is the order of their first
/// insertion, the map being built with the feature `preserve_order`.
#[verifier::external_body]
fn from_value(value: &serde_json::Value) -> Json {
    match value {
        serde_json::Value::Null => Json::Null,
        serde_json::Value::Bool(b) => Json::Bool(*b),
        serde_json::Value::Number(n) => n.as_u64().map_or(Json::OtherNumber, Json::Number),
        serde_json::Value::String(s) => Json::Text(s.clone()),
        serde_json::Value::Array(items) => Json::List(items.iter().map(from_value).collect()),
        serde_json::Value::Object(fields) => Json::Object(
            fields.iter().map(|(key, item)| (key.clone(), from_value(item))).collect(),
        ),
    }
}

/// Copies a `Json` into a `serde_json::Value`, node for node; `print` calls
/// it on what the writer is to write. The fields of an object are inserted
/// into a `serde_json::Map` in their order, where a later field with the key
/// of an earlier one takes its place. It is for trees without an
/// `OtherNumber`, which has no counterpart among the values.
#[verifier::external_body]
fn to_value(tree: &Json) -> serde_json::Value
    requires
        tree@.exact(),
{
    match tree {
        Json::Null | Json::OtherNumber => serde_json::Value::Null,
        Json::Bool(b) => serde_json::Value::Bool(*b),
        Json::Number(n) => serde_json::Value::Number(serde_json::Number::from(*n)),
        Json::Text(s) => serde_json::Value::String(s.clone()),
        Json::List(items) => serde_json::Value::Array(items.iter().map(to_value).collect()),
        Json::Object(fields) => serde_json::Value::Object(
            fields.iter().map(|(key, item)| (key.clone(), to_value(item))).collect(),
        ),
    }
}

/// `serde_json::from_str` at the type `serde_json::Value`, the value handed
/// over as a `Json`. Nothing is claimed of which texts are read or what is
/// read from them, only that the outcome depends on the text alone: it is
/// `Ok` with the tree `json_parse(text)` where that is some tree, and the
/// reader's error where it is `None`.
#[verifier::external_body]
pub(crate) fn parse(text: &str) -> (result: Result<Json, serde_json::Error>)
    ensures
        result matches Ok(tree) ==> json_parse(text@) == Some(tree@),
        result is Err ==> json_parse(text@) is None,
{
    serde_json::from_str::<serde_json::Value>(text).map(|value| from_value(&value))
}

/// `serde_json::to_string` at the type `serde_json::Value`, the value copied
/// from a `Json`. Nothing is claimed of what is written, only that the
/// outcome depends on the tree alone: it is `Ok` with the text
/// `json_text(tree)` where that is some text, and the writer's error where it
/// is `None`.
#[verifier::external_body]
pub(crate) fn print(tree: &Json) -> (result: Result<String, serde_json::Error>)
    requires
        tree@.exact(),
    ensures
        result matches Ok(text) ==> json_text(tree@) == Some(text@),
        result is Err ==> json_text(tree@) is None,
{
    serde_json::to_string(&to_value(tree))
}

/// The value of the field `key` among `fields`: that of the last field with
/// this key, as in a map filled in the order of the fields.
pub open spec fn field(fields: Fields, key: Seq<char>) -> Option<JsonView>
    decreases fields.len(),
{
    if fields.len() == 0 {
        None
    } else if fields.last().0 == key {
        Some(fields.last().1)
    } else {
        field(fields.drop_last(), key)
    }
}

/// Whether no two fields have the same key.
pub open spec fn distinct_keys(fields: Fields) -> bool {
    forall|i: int, j: int| 0 <= i < j < fields.len() ==> fields[i].0 != fields[j].0
}

/// Whether two trees differ at most in the order in which their objects list
/// their fields. An object that has a key twice is the same as no tree.
pub open spec fn same_but_order(a: JsonView, b: JsonView) -> bool
    decreases a,
{
    match a {
        JsonView::Object(fa) => {
            &&& b matches JsonView::Object(fb)
            &&& fa.len() == fb.len()
            &&& distinct_keys(fa)
            &&& distinct_keys(fb)
            &&& forall|i: int|
                0 <= i < fa.len() ==> ((#[trigger] field(fb, fa[i].0)) matches Some(value)
                    && same_but_order(fa[i].1, value))
        },
        JsonView::List(xa) => {
            &&& b matches JsonView::List(xb)
            &&& xa.len() == xb.len()
            &&& forall|i: int| 0 <= i < xa.len() ==> same_but_order(#[trigger] xa[i], xb[i])
        },
        _ => a == b,
    }
}

/// A field whose key no later field has is the one that `field` finds.
pub proof fn lemma_field_at(fields: Fields, i: int)
    requires
        0 <= i < fields.len(),
        forall|j: int| i < j < fields.len() ==> (#[trigger] fields[j]).0 != fields[i].0,
    ensures
        field(fields, fields[i].0) == Some(fields[i].1),
    decreases fields.len(),
{
    if i < fields.len() - 1 {
        let rest = fields.drop_last();
        assert(rest[i] == fields[i]);
        assert forall|j: int| i < j < rest.len() implies (#[trigger] rest[j]).0 != rest[i].0 by {
            assert(rest[j] == fields[j]);
        }
        lemma_field_at(rest, i);
    }
}

/// Finds the field `key` among `fields`.
pub fn lookup<'a>(fields: &'a Vec<(String, Json)>, key: &str) -> (found: Option<&'a Json>)
    ensures
        match field(fields_view(fields@), key@) {
            Some(value) => found matches Some(item) && item@ == value,
            None => found is None,
        },
{
    let wanted = String::from_str(key);
    let ghost all = fields_view(fields@);
    let mut i: usize = fields.len();
    proof {
        lemma_fields_view(fields@);
        assert(all.take(i as int) =~= all);
    }
    while i > 0
        invariant
            i <= fields.len(),
            all == fields_view(fields@),
            all.len() == fields.len(),
            forall|k: int| 0 <= k < fields.len() ==> (#[trigger] all[k]) == (fields[k].0@, fields[k].1@),
            wanted@ == key@,
            field(all, key@) == field(all.take(i as int), key@),
        decreases i,
    {
        let entry = &fields[i - 1];
        assert(all.take(i as int).last() == all[i - 1]);
        assert(all.take(i as int).drop_last() =~= all.take(i - 1));
        if entry.0 == wanted {
            return Some(&entry.1);
        }
        i = i - 1;
    }
    assert(all.take(0).len() == 0);
    None
}

} // verus!
