//! The wire format: which JSON object stands for which message.
//!
//! A message is an object with the fields `src`, `dest` and `body`. The body
//! is an object whose field `type` names the kind and whose other fields are
//! those of the kind, no more and no fewer when written. When read, fields
//! that the kind does not have are passed over.

use vstd::prelude::*;
use vstd::string::*;

use crate::json::distinct_keys;
use crate::json::field;
use crate::json::fields_view;
use crate::json::items_view;
use crate::json::json_parse;
use crate::json::json_text;
use crate::json::lemma_field_at;
use crate::json::lemma_fields_view;
use crate::json::lemma_items_view;
use crate::json::lookup;
use crate::json::parse;
use crate::json::print;
use crate::json::same_but_order;
use crate::json::Fields;
use crate::json::Json;
use crate::json::JsonView;
use crate::message::BodyView;
use crate::message::Message;
use crate::message::MessageBody;
use crate::message::MessageView;

verus! {

/// Why a line or a tree is no message.
#[derive(Debug, Clone, Copy, PartialEq, Eq)]
pub enum DecodeError {
    /// The line is not a JSON document.
    Syntax,
    /// A field that the message or its kind requires is absent.
    MissingField,
    /// A value is not of the shape that its place requires: the message or
    /// its body is no object, a name is no string, an id is no integer that
    /// fits `usize`, a list of names is no list of strings.
    WrongShape,
    /// The field `type` names none of the six kinds.
    UnknownKind,
}

/// The JSON writer refused the tree of a message.
#[derive(Debug, Clone, Copy, PartialEq, Eq)]
pub struct EncodeError;

/// The string at `key`.
pub open spec fn text_at(fields: Fields, key: Seq<char>) -> Result<Seq<char>, DecodeError> {
    match field(fields, key) {
        None => Err(DecodeError::MissingField),
        Some(JsonView::Text(text)) => Ok(text),
        Some(_) => Err(DecodeError::WrongShape),
    }
}

/// The id at `key`: an integer that fits `usize`.
pub open spec fn number_at(fields: Fields, key: Seq<char>) -> Result<usize, DecodeError> {
    match field(fields, key) {
        None => Err(DecodeError::MissingField),
        Some(JsonView::Number(n)) => if n <= usize::MAX {
            Ok(n as usize)
        } else {
            Err(DecodeError::WrongShape)
        },
        Some(_) => Err(DecodeError::WrongShape),
    }
}

/// Whether every item is a string.
pub open spec fn all_text(items: Seq<JsonView>) -> bool {
    forall|i: int| 0 <= i < items.len() ==> (#[trigger] items[i]) is Text
}

/// The strings that the items hold.
pub open spec fn texts(items: Seq<JsonView>) -> Seq<Seq<char>> {
    Seq::new(items.len(), |i: int| items[i]->Text_0)
}

/// The list of strings at `key`.
pub open spec fn texts_at(fields: Fields, key: Seq<char>) -> Result<Seq<Seq<char>>, DecodeError> {
    match field(fields, key) {
        None => Err(DecodeError::MissingField),
        Some(JsonView::List(items)) => if all_text(items) {
            Ok(texts(items))
        } else {
            Err(DecodeError::WrongShape)
        },
        Some(_) => Err(DecodeError::WrongShape),
    }
}

/// The body `init` that the fields hold.
pub open spec fn init_of(fields: Fields) -> Result<BodyView, DecodeError> {
    match number_at(fields, "msg_id"@) {
        Err(e) => Err(e),
        Ok(msg_id) => match text_at(fields, "node_id"@) {
            Err(e) => Err(e),
            Ok(node_id) => match texts_at(fields, "node_ids"@) {
                Err(e) => Err(e),
                Ok(node_ids) => Ok(BodyView::Init { msg_id, node_id, node_ids }),
            },
        },
    }
}

/// The body `init_ok` that the fields hold.
pub open spec fn init_ok_of(fields: Fields) -> Result<BodyView, DecodeError> {
    match number_at(fields, "in_reply_to"@) {
        Err(e) => Err(e),
        Ok(in_reply_to) => Ok(BodyView::InitOk { in_reply_to }),
    }
}

/// The body `echo` that the fields hold.
pub open spec fn echo_of(fields: Fields) -> Result<BodyView, DecodeError> {
    match number_at(fields, "msg_id"@) {
        Err(e) => Err(e),
        Ok(msg_id) => match text_at(fields, "echo"@) {
            Err(e) => Err(e),
            Ok(echo) => Ok(BodyView::Echo { msg_id, echo }),
        },
    }
}

/// The body `echo_ok` that the fields hold.
pub open spec fn echo_ok_of(fields: Fields) -> Result<BodyView, DecodeError> {
    match number_at(fields, "msg_id"@) {
        Err(e) => Err(e),
        Ok(msg_id) => match number_at(fields, "in_reply_to"@) {
            Err(e) => Err(e),
            Ok(in_reply_to) => match text_at(fields, "echo"@) {
                Err(e) => Err(e),
                Ok(echo) => Ok(BodyView::EchoOk { msg_id, in_reply_to, echo }),
            },
        },
    }
}

/// The body `generate` that the fields hold.
pub open spec fn generate_of(fields: Fields) -> Result<BodyView, DecodeError> {
    match number_at(fields, "msg_id"@) {
        Err(e) => Err(e),
        Ok(msg_id) => Ok(BodyView::Generate { msg_id }),
    }
}

/// The body `generate_ok` that the fields hold.
pub open spec fn generate_ok_of(fields: Fields) -> Result<BodyView, DecodeError> {
    match number_at(fields, "msg_id"@) {
        Err(e) => Err(e),
        Ok(msg_id) => match number_at(fields, "in_reply_to"@) {
            Err(e) => Err(e),
            Ok(in_reply_to) => match text_at(fields, "id"@) {
                Err(e) => Err(e),
                Ok(id) => Ok(BodyView::GenerateOk { msg_id, in_reply_to, id }),
            },
        },
    }
}

/// The body that the fields hold: the field `type` chooses the kind, and the
/// kind says which other fields are read, in the order of their declaration.
/// The first field that is absent or misshapen gives the error.
pub open spec fn body_of(fields: Fields) -> Result<BodyView, DecodeError> {
    match text_at(fields, "type"@) {
        Err(e) => Err(e),
        Ok(tag) => if tag == "init"@ {
            init_of(fields)
        } else if tag == "init_ok"@ {
            init_ok_of(fields)
        } else if tag == "echo"@ {
            echo_of(fields)
        } else if tag == "echo_ok"@ {
            echo_ok_of(fields)
        } else if tag == "generate"@ {
            generate_of(fields)
        } else if tag == "generate_ok"@ {
            generate_ok_of(fields)
        } else {
            Err(DecodeError::UnknownKind)
        },
    }
}

/// The body at `body`, which must be an object.
pub open spec fn body_at(fields: Fields) -> Result<BodyView, DecodeError> {
    match field(fields, "body"@) {
        None => Err(DecodeError::MissingField),
        Some(JsonView::Object(inner)) => body_of(inner),
        Some(_) => Err(DecodeError::WrongShape),
    }
}

/// The message that a tree stands for: `src`, then `dest`, then `body` are
/// read, and the first that fails gives the error.
pub open spec fn message_of(tree: JsonView) -> Result<MessageView, DecodeError> {
    match tree {
        JsonView::Object(fields) => match text_at(fields, "src"@) {
            Err(e) => Err(e),
            Ok(src) => match text_at(fields, "dest"@) {
                Err(e) => Err(e),
                Ok(dst) => match body_at(fields) {
                    Err(e) => Err(e),
                    Ok(body) => Ok(MessageView { src, dst, body }),
                },
            },
        },
        _ => Err(DecodeError::WrongShape),
    }
}

/// The message that a line stands for, given what the JSON reader makes of
/// the line.
pub open spec fn decoded(parsed: Option<JsonView>) -> Result<MessageView, DecodeError> {
    match parsed {
        None => Err(DecodeError::Syntax),
        Some(tree) => message_of(tree),
    }
}

/// A list of strings as JSON items.
pub open spec fn text_items(names: Seq<Seq<char>>) -> Seq<JsonView> {
    Seq::new(names.len(), |i: int| JsonView::Text(names[i]))
}

/// The fields that stand for a body: `type` first, then the fields of the
/// kind in the order of their declaration.
pub open spec fn body_fields(body: BodyView) -> Fields {
    match body {
        BodyView::Init { msg_id, node_id, node_ids } => seq![
            ("type"@, JsonView::Text("init"@)),
            ("msg_id"@, JsonView::Number(msg_id as u64)),
            ("node_id"@, JsonView::Text(node_id)),
            ("node_ids"@, JsonView::List(text_items(node_ids))),
        ],
        BodyView::InitOk { in_reply_to } => seq![
            ("type"@, JsonView::Text("init_ok"@)),
            ("in_reply_to"@, JsonView::Number(in_reply_to as u64)),
        ],
        BodyView::Echo { msg_id, echo } => seq![
            ("type"@, JsonView::Text("echo"@)),
            ("msg_id"@, JsonView::Number(msg_id as u64)),
            ("echo"@, JsonView::Text(echo)),
        ],
        BodyView::EchoOk { msg_id, in_reply_to, echo } => seq![
            ("type"@, JsonView::Text("echo_ok"@)),
            ("msg_id"@, JsonView::Number(msg_id as u64)),
            ("in_reply_to"@, JsonView::Number(in_reply_to as u64)),
            ("echo"@, JsonView::Text(echo)),
        ],
        BodyView::Generate { msg_id } => seq![
            ("type"@, JsonView::Text("generate"@)),
            ("msg_id"@, JsonView::Number(msg_id as u64)),
        ],
        BodyView::GenerateOk { msg_id, in_reply_to, id } => seq![
            ("type"@, JsonView::Text("generate_ok"@)),
            ("msg_id"@, JsonView::Number(msg_id as u64)),
            ("in_reply_to"@, JsonView::Number(in_reply_to as u64)),
            ("id"@, JsonView::Text(id)),
        ],
    }
}

/// The tree that stands for a message: `src`, `dest`, `body`, in this order.
pub open spec fn message_tree(message: MessageView) -> JsonView {
    JsonView::Object(
        seq![
            ("src"@, JsonView::Text(message.src)),
            ("dest"@, JsonView::Text(message.dst)),
            ("body"@, JsonView::Object(body_fields(message.body))),
        ],
    )
}

/// The names of the wire format differ from one another: the three fields
/// of a message, the fields within each kind of body, and the six kinds.
pub proof fn lemma_names_differ()
    ensures
        "src"@ != "dest"@,
        "src"@ != "body"@,
        "dest"@ != "body"@,
        "type"@ != "msg_id"@,
        "type"@ != "node_id"@,
        "type"@ != "node_ids"@,
        "type"@ != "in_reply_to"@,
        "type"@ != "echo"@,
        "type"@ != "id"@,
        "msg_id"@ != "node_id"@,
        "msg_id"@ != "node_ids"@,
        "msg_id"@ != "in_reply_to"@,
        "msg_id"@ != "echo"@,
        "msg_id"@ != "id"@,
        "node_id"@ != "node_ids"@,
        "in_reply_to"@ != "echo"@,
        "in_reply_to"@ != "id"@,
        "init"@ != "init_ok"@,
        "init"@ != "echo"@,
        "init"@ != "echo_ok"@,
        "init"@ != "generate"@,
        "init"@ != "generate_ok"@,
        "init_ok"@ != "echo"@,
        "init_ok"@ != "echo_ok"@,
        "init_ok"@ != "generate"@,
        "init_ok"@ != "generate_ok"@,
        "echo"@ != "echo_ok"@,
        "echo"@ != "generate"@,
        "echo"@ != "generate_ok"@,
        "echo_ok"@ != "generate"@,
        "echo_ok"@ != "generate_ok"@,
        "generate"@ != "generate_ok"@,
{
    reveal_strlit("src");
    reveal_strlit("dest");
    reveal_strlit("body");
    reveal_strlit("type");
    reveal_strlit("msg_id");
    reveal_strlit("node_id");
    reveal_strlit("node_ids");
    reveal_strlit("in_reply_to");
    reveal_strlit("echo");
    reveal_strlit("id");
    reveal_strlit("init");
    reveal_strlit("init_ok");
    reveal_strlit("echo_ok");
    reveal_strlit("generate");
    reveal_strlit("generate_ok");
    assert("src"@.len() == 3);
    assert("dest"@.len() == 4);
    assert("body"@.len() == 4);
    assert("type"@.len() == 4);
    assert("msg_id"@.len() == 6);
    assert("node_id"@.len() == 7);
    assert("node_ids"@.len() == 8);
    assert("in_reply_to"@.len() == 11);
    assert("echo"@.len() == 4);
    assert("id"@.len() == 2);
    assert("init"@.len() == 4);
    assert("init_ok"@.len() == 7);
    assert("echo_ok"@.len() == 7);
    assert("generate"@.len() == 8);
    assert("generate_ok"@.len() == 11);
    assert("dest"@[0] != "body"@[0]);
    assert("type"@[0] != "echo"@[0]);
    assert("init"@[0] != "echo"@[0]);
    assert("init_ok"@[0] != "echo_ok"@[0]);
}

/// Names and back: the strings that the items of `text_items` hold are the
/// names.
pub proof fn lemma_text_items(names: Seq<Seq<char>>)
    ensures
        all_text(text_items(names)),
        texts(text_items(names)) == names,
{
    assert(texts(text_items(names)) =~= names);
}

/// Reading the fields written for a body gives the body back.
pub proof fn lemma_body_round_trip(body: BodyView)
    ensures
        body_of(body_fields(body)) == Ok::<BodyView, DecodeError>(body),
{
    lemma_names_differ();
    let fields = body_fields(body);
    lemma_field_at(fields, 0);
    lemma_field_at(fields, 1);
    match body {
        BodyView::Init { msg_id, node_id, node_ids } => {
            lemma_field_at(fields, 2);
            lemma_field_at(fields, 3);
            lemma_text_items(node_ids);
        },
        BodyView::InitOk { in_reply_to } => {},
        BodyView::Echo { msg_id, echo } => {
            lemma_field_at(fields, 2);
        },
        BodyView::EchoOk { msg_id, in_reply_to, echo } => {
            lemma_field_at(fields, 2);
            lemma_field_at(fields, 3);
        },
        BodyView::Generate { msg_id } => {},
        BodyView::GenerateOk { msg_id, in_reply_to, id } => {
            lemma_field_at(fields, 2);
            lemma_field_at(fields, 3);
        },
    }
}

/// Writing a message as a tree and reading the tree gives the message back:
/// no tree that is written for a message is turned down, and none stands for
/// another message.
pub proof fn lemma_round_trip(message: MessageView)
    ensures
        message_of(message_tree(message)) == Ok::<MessageView, DecodeError>(message),
{
    lemma_names_differ();
    lemma_body_round_trip(message.body);
    let fields = message_tree(message)->Object_0;
    lemma_field_at(fields, 0);
    lemma_field_at(fields, 1);
    lemma_field_at(fields, 2);
}

/// Whether a tree that stands for a message holds nothing besides: no key
/// twice in the message or in its body, and no field that the message or
/// the kind of its body does not have.
pub open spec fn holds_nothing_else(tree: JsonView) -> bool {
    &&& tree matches JsonView::Object(fields)
    &&& distinct_keys(fields)
    &&& fields.len() == 3
    &&& field(fields, "body"@) matches Some(JsonView::Object(inner))
    &&& distinct_keys(inner)
    &&& body_of(inner) matches Ok(body)
    &&& inner.len() == body_fields(body).len()
}

/// A list of strings, read and written again, is the same list.
proof fn lemma_texts_again(items: Seq<JsonView>)
    requires
        all_text(items),
    ensures
        same_but_order(JsonView::List(text_items(texts(items))), JsonView::List(items)),
{
    let again = text_items(texts(items));
    assert forall|i: int| 0 <= i < again.len() implies same_but_order(
        #[trigger] again[i],
        items[i],
    ) by {
        assert(items[i] is Text);
    }
}

/// The fields of a body, read and written again, are the same fields but for
/// their order, where the body held nothing else.
proof fn lemma_body_again(inner: Fields)
    requires
        body_of(inner) is Ok,
        distinct_keys(inner),
        inner.len() == body_fields(body_of(inner)->Ok_0).len(),
    ensures
        same_but_order(JsonView::Object(body_fields(body_of(inner)->Ok_0)), JsonView::Object(inner)),
{
    lemma_names_differ();
    let body = body_of(inner)->Ok_0;
    let written = body_fields(body);
    assert(distinct_keys(written));
    assert forall|i: int| 0 <= i < written.len() implies ((#[trigger] field(
        inner,
        written[i].0,
    )) matches Some(value) && same_but_order(written[i].1, value)) by {
        if let BodyView::Init { .. } = body {
            if i == 3 {
                lemma_texts_again(field(inner, "node_ids"@)->Some_0->List_0);
            }
        }
    }
}

/// Reading a tree and writing the message again gives the same tree but for
/// the order of its fields, where the tree held nothing besides the message:
/// a field that the message does not have is not written again, and a key
/// that stood twice is written once.
pub proof fn lemma_read_then_written(tree: JsonView)
    requires
        message_of(tree) is Ok,
        holds_nothing_else(tree),
    ensures
        same_but_order(message_tree(message_of(tree)->Ok_0), tree),
{
    lemma_names_differ();
    let message = message_of(tree)->Ok_0;
    let fields = tree->Object_0;
    let inner = field(fields, "body"@)->Some_0->Object_0;
    let written = message_tree(message)->Object_0;
    lemma_body_again(inner);
    assert(distinct_keys(written));
    assert forall|i: int| 0 <= i < written.len() implies ((#[trigger] field(
        fields,
        written[i].0,
    )) matches Some(value) && same_but_order(written[i].1, value)) by {}
}

/// A result of reading a string, as a mathematical value.
pub open spec fn text_result(r: Result<String, DecodeError>) -> Result<Seq<char>, DecodeError> {
    match r {
        Ok(text) => Ok(text@),
        Err(e) => Err(e),
    }
}

/// A result of reading a list of strings, as a mathematical value.
pub open spec fn texts_result(r: Result<Vec<String>, DecodeError>) -> Result<
    Seq<Seq<char>>,
    DecodeError,
> {
    match r {
        Ok(names) => Ok(names.deep_view()),
        Err(e) => Err(e),
    }
}

/// A result of reading a body, as a mathematical value.
pub open spec fn body_result(r: Result<MessageBody, DecodeError>) -> Result<BodyView, DecodeError> {
    match r {
        Ok(body) => Ok(body@),
        Err(e) => Err(e),
    }
}

/// A result of reading a message, as a mathematical value.
pub open spec fn message_result(r: Result<Message, DecodeError>) -> Result<
    MessageView,
    DecodeError,
> {
    match r {
        Ok(message) => Ok(message@),
        Err(e) => Err(e),
    }
}

/// Reads the string at `key`.
fn text_field(fields: &Vec<(String, Json)>, key: &str) -> (r: Result<String, DecodeError>)
    ensures
        text_result(r) == text_at(fields_view(fields@), key@),
{
    match lookup(fields, key) {
        None => Err(DecodeError::MissingField),
        Some(Json::Text(text)) => Ok(text.clone()),
        Some(_) => Err(DecodeError::WrongShape),
    }
}

/// Reads the id at `key`.
fn number_field(fields: &Vec<(String, Json)>, key: &str) -> (r: Result<usize, DecodeError>)
    ensures
        r == number_at(fields_view(fields@), key@),
{
    match lookup(fields, key) {
        None => Err(DecodeError::MissingField),
        Some(Json::Number(n)) => {
            if *n <= usize::MAX as u64 {
                Ok(*n as usize)
            } else {
                Err(DecodeError::WrongShape)
            }
        },
        Some(_) => Err(DecodeError::WrongShape),
    }
}

/// Reads the list of strings at `key`.
fn texts_field(fields: &Vec<(String, Json)>, key: &str) -> (r: Result<Vec<String>, DecodeError>)
    ensures
        texts_result(r) == texts_at(fields_view(fields@), key@),
{
    match lookup(fields, key) {
        None => Err(DecodeError::MissingField),
        Some(Json::List(items)) => {
            let ghost trees = items_view(items@);
            proof {
                lemma_items_view(items@);
            }
            let mut names: Vec<String> = Vec::new();
            let mut i: usize = 0;
            while i < items.len()
                invariant
                    i <= items.len(),
                    field(fields_view(fields@), key@) == Some(JsonView::List(trees)),
                    trees == items_view(items@),
                    trees.len() == items.len(),
                    forall|k: int| 0 <= k < items.len() ==> (#[trigger] trees[k]) == items[k]@,
                    names.len() == i,
                    forall|k: int| 0 <= k < i ==> (#[trigger] trees[k]) is Text,
                    forall|k: int| 0 <= k < i ==> (#[trigger] names[k])@ == trees[k]->Text_0,
                decreases items.len() - i,
            {
                match &items[i] {
                    Json::Text(text) => {
                        names.push(text.clone());
                    },
                    _ => {
                        assert(!(trees[i as int] is Text));
                        return Err(DecodeError::WrongShape);
                    },
                }
                i = i + 1;
            }
            assert(names.deep_view() =~= texts(trees));
            Ok(names)
        },
        Some(_) => Err(DecodeError::WrongShape),
    }
}

/// Whether `text` is the string `name`.
fn same(text: &String, name: &str) -> (b: bool)
    ensures
        b == (text@ == name@),
{
    *text == String::from_str(name)
}

/// Reads the body that the fields hold.
fn body_from(fields: &Vec<(String, Json)>) -> (r: Result<MessageBody, DecodeError>)
    ensures
        body_result(r) == body_of(fields_view(fields@)),
{
    let tag = text_field(fields, "type")?;
    if same(&tag, "init") {
        let msg_id = number_field(fields, "msg_id")?;
        let node_id = text_field(fields, "node_id")?;
        let node_ids = texts_field(fields, "node_ids")?;
        Ok(MessageBody::Init { msg_id, node_id, node_ids })
    } else if same(&tag, "init_ok") {
        let in_reply_to = number_field(fields, "in_reply_to")?;
        Ok(MessageBody::InitOk { in_reply_to })
    } else if same(&tag, "echo") {
        let msg_id = number_field(fields, "msg_id")?;
        let echo = text_field(fields, "echo")?;
        Ok(MessageBody::Echo { msg_id, echo })
    } else if same(&tag, "echo_ok") {
        let msg_id = number_field(fields, "msg_id")?;
        let in_reply_to = number_field(fields, "in_reply_to")?;
        let echo = text_field(fields, "echo")?;
        Ok(MessageBody::EchoOk { msg_id, in_reply_to, echo })
    } else if same(&tag, "generate") {
        let msg_id = number_field(fields, "msg_id")?;
        Ok(MessageBody::Generate { msg_id })
    } else if same(&tag, "generate_ok") {
        let msg_id = number_field(fields, "msg_id")?;
        let in_reply_to = number_field(fields, "in_reply_to")?;
        let id = text_field(fields, "id")?;
        Ok(MessageBody::GenerateOk { msg_id, in_reply_to, id })
    } else {
        Err(DecodeError::UnknownKind)
    }
}

/// A field whose value is a string.
fn text_entry(key: &str, text: &String) -> (entry: (String, Json))
    ensures
        entry.0@ == key@,
        entry.1@ == JsonView::Text(text@),
{
    (String::from_str(key), Json::Text(text.clone()))
}

/// A field whose value is a literal string.
fn tag_entry(key: &str, tag: &str) -> (entry: (String, Json))
    ensures
        entry.0@ == key@,
        entry.1@ == JsonView::Text(tag@),
{
    (String::from_str(key), Json::Text(String::from_str(tag)))
}

/// A field whose value is an id.
fn number_entry(key: &str, n: usize) -> (entry: (String, Json))
    ensures
        entry.0@ == key@,
        entry.1@ == JsonView::Number(n as u64),
{
    (String::from_str(key), Json::Number(n as u64))
}

/// A field whose value is a list of strings.
fn texts_entry(key: &str, names: &Vec<String>) -> (entry: (String, Json))
    ensures
        entry.0@ == key@,
        entry.1@ == JsonView::List(text_items(names.deep_view())),
{
    let mut items: Vec<Json> = Vec::new();
    let mut i: usize = 0;
    while i < names.len()
        invariant
            i <= names.len(),
            items.len() == i,
            forall|k: int| 0 <= k < i ==> (#[trigger] items[k])@ == JsonView::Text(names[k]@),
        decreases names.len() - i,
    {
        items.push(Json::Text(names[i].clone()));
        i = i + 1;
    }
    proof {
        lemma_items_view(items@);
        assert(items_view(items@) =~= text_items(names.deep_view()));
    }
    (String::from_str(key), Json::List(items))
}

/// A field whose value is an object.
fn object_entry(key: &str, fields: Vec<(String, Json)>) -> (entry: (String, Json))
    ensures
        entry.0@ == key@,
        entry.1@ == JsonView::Object(fields_view(fields@)),
{
    (String::from_str(key), Json::Object(fields))
}

/// Builds the fields that stand for a body.
fn fields_of(body: &MessageBody) -> (fields: Vec<(String, Json)>)
    ensures
        fields_view(fields@) == body_fields(body@),
{
    let mut fields: Vec<(String, Json)> = Vec::new();
    match body {
        MessageBody::Init { msg_id, node_id, node_ids } => {
            fields.push(tag_entry("type", "init"));
            fields.push(number_entry("msg_id", *msg_id));
            fields.push(text_entry("node_id", node_id));
            fields.push(texts_entry("node_ids", node_ids));
        },
        MessageBody::InitOk { in_reply_to } => {
            fields.push(tag_entry("type", "init_ok"));
            fields.push(number_entry("in_reply_to", *in_reply_to));
        },
        MessageBody::Echo { msg_id, echo } => {
            fields.push(tag_entry("type", "echo"));
            fields.push(number_entry("msg_id", *msg_id));
            fields.push(text_entry("echo", echo));
        },
        MessageBody::EchoOk { msg_id, in_reply_to, echo } => {
            fields.push(tag_entry("type", "echo_ok"));
            fields.push(number_entry("msg_id", *msg_id));
            fields.push(number_entry("in_reply_to", *in_reply_to));
            fields.push(text_entry("echo", echo));
        },
        MessageBody::Generate { msg_id } => {
            fields.push(tag_entry("type", "generate"));
            fields.push(number_entry("msg_id", *msg_id));
        },
        MessageBody::GenerateOk { msg_id, in_reply_to, id } => {
            fields.push(tag_entry("type", "generate_ok"));
            fields.push(number_entry("msg_id", *msg_id));
            fields.push(number_entry("in_reply_to", *in_reply_to));
            fields.push(text_entry("id", id));
        },
    }
    proof {
        lemma_fields_view(fields@);
        assert(fields_view(fields@) =~= body_fields(body@));
    }
    fields
}

/// The tree of a message holds no number without its value.
pub proof fn lemma_message_tree_exact(message: MessageView)
    ensures
        message_tree(message).exact(),
{
    let inner = body_fields(message.body);
    assert forall|i: int| 0 <= i < inner.len() implies (#[trigger] inner[i]).1.exact() by {
        if let BodyView::Init { node_ids, .. } = message.body {
            let items = text_items(node_ids);
            assert forall|k: int| 0 <= k < items.len() implies (#[trigger] items[k]).exact() by {
                assert(items[k] is Text);
            }
            assert(JsonView::List(items).exact());
        }
    }
    assert(JsonView::Object(inner).exact());
    let outer = message_tree(message)->Object_0;
    assert forall|i: int| 0 <= i < outer.len() implies (#[trigger] outer[i]).1.exact() by {}
}

impl Message {
    /// Builds the tree that stands for this message.
    pub fn to_json(&self) -> (tree: Json)
        ensures
            tree@ == message_tree(self@),
            tree@.exact(),
            message_of(tree@) == Ok::<MessageView, DecodeError>(self@),
    {
        proof {
            lemma_message_tree_exact(self@);
            lemma_round_trip(self@);
        }
        let mut fields: Vec<(String, Json)> = Vec::new();
        fields.push(text_entry("src", &self.src));
        fields.push(text_entry("dest", &self.dst));
        fields.push(object_entry("body", fields_of(&self.body)));
        proof {
            lemma_fields_view(fields@);
            assert(fields_view(fields@) =~= message_tree(self@)->Object_0);
        }
        Json::Object(fields)
    }

    /// Reads the message that a tree stands for, or says why it stands for
    /// none.
    pub fn from_json(tree: &Json) -> (r: Result<Message, DecodeError>)
        ensures
            message_result(r) == message_of(tree@),
            r matches Ok(message) ==> (holds_nothing_else(tree@) ==> same_but_order(
                message_tree(message@),
                tree@,
            )),
    {
        proof {
            if message_of(tree@) is Ok && holds_nothing_else(tree@) {
                lemma_read_then_written(tree@);
            }
        }
        match tree {
            Json::Object(fields) => {
                let src = text_field(fields, "src")?;
                let dst = text_field(fields, "dest")?;
                let body = match lookup(fields, "body") {
                    None => {
                        return Err(DecodeError::MissingField);
                    },
                    Some(Json::Object(inner)) => body_from(inner)?,
                    Some(_) => {
                        return Err(DecodeError::WrongShape);
                    },
                };
                Ok(Message { src, dst, body })
            },
            _ => Err(DecodeError::WrongShape),
        }
    }

    /// Writes this message as one line of JSON, without the line break.
    ///
    /// The line is what the JSON writer makes of the message's tree; the
    /// error comes exactly where the writer refuses that tree.
    pub fn encode(&self) -> (r: Result<String, EncodeError>)
        ensures
            match json_text(message_tree(self@)) {
                Some(text) => r matches Ok(line) && line@ == text,
                None => r is Err,
            },
    {
        let tree = self.to_json();
        match print(&tree) {
            Ok(line) => Ok(line),
            Err(_) => Err(EncodeError),
        }
    }

    /// Reads a message from one line of JSON.
    ///
    /// The line must be a JSON document, `Syntax` otherwise, and the
    /// document must stand for a message as `message_of` says.
    pub fn decode(line: &str) -> (r: Result<Message, DecodeError>)
        ensures
            message_result(r) == decoded(json_parse(line@)),
    {
        match parse(line) {
            Ok(tree) => Message::from_json(&tree),
            Err(_) => Err(DecodeError::Syntax),
        }
    }
}

} // verus!
