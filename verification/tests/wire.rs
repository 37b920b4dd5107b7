use node_protocol::json::lookup;
use node_protocol::DecodeError;
use node_protocol::Json;
use node_protocol::Message;
use node_protocol::MessageBody;

fn text(s: &str) -> Json {
    Json::Text(s.to_string())
}

fn object(fields: Vec<(&str, Json)>) -> Json {
    Json::Object(fields.into_iter().map(|(key, value)| (key.to_string(), value)).collect())
}

fn message(body: MessageBody) -> Message {
    Message { src: "c1".to_string(), dst: "n3".to_string(), body }
}

fn one_of_each_kind() -> Vec<Message> {
    vec![
        message(MessageBody::Init {
            msg_id: 1,
            node_id: "n3".to_string(),
            node_ids: vec!["n1".to_string(), "n2".to_string(), "n3".to_string()],
        }),
        message(MessageBody::Init { msg_id: 0, node_id: String::new(), node_ids: vec![] }),
        message(MessageBody::InitOk { in_reply_to: 1 }),
        message(MessageBody::Echo { msg_id: 2, echo: "Please echo 98".to_string() }),
        message(MessageBody::EchoOk { msg_id: 2, in_reply_to: 2, echo: "\u{2603} \"q\" \\ \n".to_string() }),
        message(MessageBody::Generate { msg_id: usize::MAX }),
        message(MessageBody::GenerateOk { msg_id: 3, in_reply_to: 3, id: "n3-1".to_string() }),
    ]
}

#[test]
fn encode_writes_the_wire_format_of_each_kind() {
    let lines: Vec<String> = one_of_each_kind().iter().map(|m| m.encode().unwrap()).collect();
    assert_eq!(
        lines[0],
        r#"{"src":"c1","dest":"n3","body":{"type":"init","msg_id":1,"node_id":"n3","node_ids":["n1","n2","n3"]}}"#
    );
    assert_eq!(
        lines[1],
        r#"{"src":"c1","dest":"n3","body":{"type":"init","msg_id":0,"node_id":"","node_ids":[]}}"#
    );
    assert_eq!(lines[2], r#"{"src":"c1","dest":"n3","body":{"type":"init_ok","in_reply_to":1}}"#);
    assert_eq!(
        lines[3],
        r#"{"src":"c1","dest":"n3","body":{"type":"echo","msg_id":2,"echo":"Please echo 98"}}"#
    );
    assert_eq!(
        lines[4],
        "{\"src\":\"c1\",\"dest\":\"n3\",\"body\":{\"type\":\"echo_ok\",\"msg_id\":2,\"in_reply_to\":2,\"echo\":\"\u{2603} \\\"q\\\" \\\\ \\n\"}}"
    );
    assert_eq!(
        lines[5],
        format!(r#"{{"src":"c1","dest":"n3","body":{{"type":"generate","msg_id":{}}}}}"#, usize::MAX)
    );
    assert_eq!(
        lines[6],
        r#"{"src":"c1","dest":"n3","body":{"type":"generate_ok","msg_id":3,"in_reply_to":3,"id":"n3-1"}}"#
    );
}

#[test]
fn encoded_line_has_no_line_break() {
    let m = message(MessageBody::Echo { msg_id: 1, echo: "first\nsecond\r\nthird".to_string() });
    let line = m.encode().unwrap();
    assert!(!line.contains('\n'));
    assert!(!line.contains('\r'));
}

#[test]
fn decode_reads_each_request_of_the_wire_format() {
    assert_eq!(
        Message::decode(
            r#"{"src":"c1","dest":"n3","body":{"type":"init","msg_id":1,"node_id":"n3","node_ids":["n1","n2","n3"]}}"#
        ),
        Ok(message(MessageBody::Init {
            msg_id: 1,
            node_id: "n3".to_string(),
            node_ids: vec!["n1".to_string(), "n2".to_string(), "n3".to_string()],
        }))
    );
    assert_eq!(
        Message::decode(r#"{"src":"c1","dest":"n3","body":{"type":"echo","msg_id":1,"echo":"Please echo 98"}}"#),
        Ok(message(MessageBody::Echo { msg_id: 1, echo: "Please echo 98".to_string() }))
    );
    assert_eq!(
        Message::decode(r#"{"src":"c1","dest":"n3","body":{"type":"generate","msg_id":1}}"#),
        Ok(message(MessageBody::Generate { msg_id: 1 }))
    );
}

#[test]
fn decode_reads_each_reply_of_the_wire_format() {
    assert_eq!(
        Message::decode(r#"{"src":"c1","dest":"n3","body":{"type":"init_ok","in_reply_to":1}}"#),
        Ok(message(MessageBody::InitOk { in_reply_to: 1 }))
    );
    assert_eq!(
        Message::decode(
            r#"{"src":"c1","dest":"n3","body":{"type":"echo_ok","msg_id":1,"in_reply_to":2,"echo":"x"}}"#
        ),
        Ok(message(MessageBody::EchoOk { msg_id: 1, in_reply_to: 2, echo: "x".to_string() }))
    );
    assert_eq!(
        Message::decode(
            r#"{"src":"c1","dest":"n3","body":{"type":"generate_ok","msg_id":1,"in_reply_to":2,"id":"n3-1"}}"#
        ),
        Ok(message(MessageBody::GenerateOk { msg_id: 1, in_reply_to: 2, id: "n3-1".to_string() }))
    );
}

#[test]
fn decode_takes_fields_in_any_order_and_a_line_break_at_the_end() {
    let line = "{\"body\": {\"echo\": \"hi\", \"msg_id\": 4, \"type\": \"echo\"}, \"dest\": \"n3\", \"src\": \"c1\"}\n";
    assert_eq!(
        Message::decode(line),
        Ok(message(MessageBody::Echo { msg_id: 4, echo: "hi".to_string() }))
    );
}

#[test]
fn decode_passes_over_fields_that_the_kind_does_not_have() {
    let line = r#"{"id":9,"src":"c1","dest":"n3","body":{"type":"generate","msg_id":1,"echo":null,"extra":[1.5,-2,true]}}"#;
    assert_eq!(Message::decode(line), Ok(message(MessageBody::Generate { msg_id: 1 })));
}

#[test]
fn decode_undoes_the_escapes_of_a_string() {
    let line = r#"{"src":"c1","dest":"n3","body":{"type":"echo","msg_id":1,"echo":"a\"b\\c\n\u2603\ud83d\ude00"}}"#;
    assert_eq!(
        Message::decode(line),
        Ok(message(MessageBody::Echo { msg_id: 1, echo: "a\"b\\c\n\u{2603}\u{1F600}".to_string() }))
    );
}

#[test]
fn decode_and_encode_are_inverse_on_each_kind() {
    for m in one_of_each_kind() {
        let line = m.encode().unwrap();
        assert_eq!(Message::decode(&line), Ok(m));
    }
}

#[test]
fn a_request_read_and_written_again_is_the_same_line() {
    let lines = [
        r#"{"src":"c1","dest":"n3","body":{"type":"init","msg_id":1,"node_id":"n3","node_ids":["n1","n2","n3"]}}"#,
        r#"{"src":"c1","dest":"n3","body":{"type":"echo","msg_id":1,"echo":"Please echo 98"}}"#,
        r#"{"src":"c1","dest":"n3","body":{"type":"generate","msg_id":1}}"#,
    ];
    for line in lines {
        assert_eq!(Message::decode(line).unwrap().encode().unwrap(), line);
    }
}

#[test]
fn a_reordered_request_is_written_again_in_the_order_of_the_format() {
    let line = r#"{"dest":"n3","body":{"msg_id":1,"echo":"x","type":"echo"},"src":"c1"}"#;
    assert_eq!(
        Message::decode(line).unwrap().encode().unwrap(),
        r#"{"src":"c1","dest":"n3","body":{"type":"echo","msg_id":1,"echo":"x"}}"#
    );
}

#[test]
fn decode_refuses_what_is_no_json() {
    for line in ["", "\n", "{", "not json", r#"{"src":"c1""#, r#"{"src":"c1","dest":"n3","body":{}} trailing"#] {
        assert_eq!(Message::decode(line), Err(DecodeError::Syntax), "line {:?}", line);
    }
}

#[test]
fn decode_refuses_an_unknown_kind() {
    for kind in ["bogus", "", "Init", "INIT", "echo ", "read", "init_okay"] {
        let line = format!(r#"{{"src":"c1","dest":"n3","body":{{"type":"{}","msg_id":1}}}}"#, kind);
        assert_eq!(Message::decode(&line), Err(DecodeError::UnknownKind), "kind {:?}", kind);
    }
}

#[test]
fn decode_refuses_a_missing_field() {
    let lines = [
        r#"{}"#,
        r#"{"dest":"n3","body":{"type":"generate","msg_id":1}}"#,
        r#"{"src":"c1","body":{"type":"generate","msg_id":1}}"#,
        r#"{"src":"c1","dest":"n3"}"#,
        r#"{"src":"c1","dst":"n3","body":{"type":"generate","msg_id":1}}"#,
        r#"{"src":"c1","dest":"n3","body":{}}"#,
        r#"{"src":"c1","dest":"n3","body":{"msg_id":1}}"#,
        r#"{"src":"c1","dest":"n3","body":{"type":"generate"}}"#,
        r#"{"src":"c1","dest":"n3","body":{"type":"echo","msg_id":1}}"#,
        r#"{"src":"c1","dest":"n3","body":{"type":"echo","echo":"x"}}"#,
        r#"{"src":"c1","dest":"n3","body":{"type":"init","msg_id":1,"node_ids":[]}}"#,
        r#"{"src":"c1","dest":"n3","body":{"type":"init","msg_id":1,"node_id":"n3"}}"#,
        r#"{"src":"c1","dest":"n3","body":{"type":"init_ok"}}"#,
        r#"{"src":"c1","dest":"n3","body":{"type":"init_ok","msg_id":1}}"#,
        r#"{"src":"c1","dest":"n3","body":{"type":"echo_ok","msg_id":1,"echo":"x"}}"#,
        r#"{"src":"c1","dest":"n3","body":{"type":"generate_ok","msg_id":1,"in_reply_to":1}}"#,
    ];
    for line in lines {
        assert_eq!(Message::decode(line), Err(DecodeError::MissingField), "line {}", line);
    }
}

#[test]
fn decode_refuses_a_value_of_the_wrong_shape() {
    let lines = [
        r#"null"#,
        r#"7"#,
        r#""text""#,
        r#"["c1","n3",{"type":"generate","msg_id":1}]"#,
        r#"{"src":1,"dest":"n3","body":{"type":"generate","msg_id":1}}"#,
        r#"{"src":"c1","dest":null,"body":{"type":"generate","msg_id":1}}"#,
        r#"{"src":"c1","dest":"n3","body":"generate"}"#,
        r#"{"src":"c1","dest":"n3","body":["generate"]}"#,
        r#"{"src":"c1","dest":"n3","body":{"type":7,"msg_id":1}}"#,
        r#"{"src":"c1","dest":"n3","body":{"type":"generate","msg_id":"1"}}"#,
        r#"{"src":"c1","dest":"n3","body":{"type":"generate","msg_id":-1}}"#,
        r#"{"src":"c1","dest":"n3","body":{"type":"generate","msg_id":1.0}}"#,
        r#"{"src":"c1","dest":"n3","body":{"type":"generate","msg_id":1e2}}"#,
        r#"{"src":"c1","dest":"n3","body":{"type":"generate","msg_id":18446744073709551616}}"#,
        r#"{"src":"c1","dest":"n3","body":{"type":"generate","msg_id":null}}"#,
        r#"{"src":"c1","dest":"n3","body":{"type":"echo","msg_id":1,"echo":5}}"#,
        r#"{"src":"c1","dest":"n3","body":{"type":"init","msg_id":1,"node_id":"n3","node_ids":"n1"}}"#,
        r#"{"src":"c1","dest":"n3","body":{"type":"init","msg_id":1,"node_id":"n3","node_ids":["n1",2]}}"#,
        r#"{"src":"c1","dest":"n3","body":{"type":"init","msg_id":1,"node_id":"n3","node_ids":[["n1"]]}}"#,
    ];
    for line in lines {
        assert_eq!(Message::decode(line), Err(DecodeError::WrongShape), "line {}", line);
    }
}

#[test]
fn decode_reads_the_largest_id() {
    let line = format!(r#"{{"src":"c1","dest":"n3","body":{{"type":"generate","msg_id":{}}}}}"#, u64::MAX);
    if usize::MAX as u64 == u64::MAX {
        assert_eq!(Message::decode(&line), Ok(message(MessageBody::Generate { msg_id: usize::MAX })));
    } else {
        assert_eq!(Message::decode(&line), Err(DecodeError::WrongShape));
    }
}

#[test]
fn decode_reports_the_first_fault_in_the_order_of_the_format() {
    assert_eq!(
        Message::decode(r#"{"src":1,"body":{"type":"bogus"}}"#),
        Err(DecodeError::WrongShape)
    );
    assert_eq!(
        Message::decode(r#"{"src":"c1","body":{"type":"bogus"}}"#),
        Err(DecodeError::MissingField)
    );
    assert_eq!(
        Message::decode(r#"{"src":"c1","dest":"n3","body":{"type":"bogus"}}"#),
        Err(DecodeError::UnknownKind)
    );
    assert_eq!(
        Message::decode(r#"{"src":"c1","dest":"n3","body":{"type":"echo_ok","msg_id":"x","echo":1}}"#),
        Err(DecodeError::WrongShape)
    );
    assert_eq!(
        Message::decode(r#"{"src":"c1","dest":"n3","body":{"type":"echo_ok","msg_id":1,"echo":1}}"#),
        Err(DecodeError::MissingField)
    );
}

#[test]
fn to_json_lists_the_fields_in_the_order_of_the_format() {
    let m = message(MessageBody::EchoOk { msg_id: 2, in_reply_to: 3, echo: "x".to_string() });
    assert_eq!(
        m.to_json(),
        object(vec![
            ("src", text("c1")),
            ("dest", text("n3")),
            (
                "body",
                object(vec![
                    ("type", text("echo_ok")),
                    ("msg_id", Json::Number(2)),
                    ("in_reply_to", Json::Number(3)),
                    ("echo", text("x")),
                ])
            ),
        ])
    );
    let init = message(MessageBody::Init {
        msg_id: 1,
        node_id: "n1".to_string(),
        node_ids: vec!["n1".to_string(), "n2".to_string()],
    });
    assert_eq!(
        init.to_json(),
        object(vec![
            ("src", text("c1")),
            ("dest", text("n3")),
            (
                "body",
                object(vec![
                    ("type", text("init")),
                    ("msg_id", Json::Number(1)),
                    ("node_id", text("n1")),
                    ("node_ids", Json::List(vec![text("n1"), text("n2")])),
                ])
            ),
        ])
    );
}

#[test]
fn from_json_undoes_to_json() {
    for m in one_of_each_kind() {
        assert_eq!(Message::from_json(&m.to_json()), Ok(m));
    }
}

#[test]
fn from_json_reads_a_tree_in_any_order() {
    let tree = object(vec![
        ("body", object(vec![("msg_id", Json::Number(8)), ("type", text("generate"))])),
        ("src", text("c1")),
        ("dest", text("n3")),
    ]);
    assert_eq!(Message::from_json(&tree), Ok(message(MessageBody::Generate { msg_id: 8 })));
}

#[test]
fn from_json_refuses_other_numbers_and_other_values() {
    let with_id = |id: Json| {
        object(vec![
            ("src", text("c1")),
            ("dest", text("n3")),
            ("body", object(vec![("type", text("generate")), ("msg_id", id)])),
        ])
    };
    assert_eq!(Message::from_json(&with_id(Json::OtherNumber)), Err(DecodeError::WrongShape));
    assert_eq!(Message::from_json(&with_id(Json::Null)), Err(DecodeError::WrongShape));
    assert_eq!(Message::from_json(&with_id(Json::Bool(true))), Err(DecodeError::WrongShape));
    assert_eq!(Message::from_json(&with_id(text("1"))), Err(DecodeError::WrongShape));
    assert_eq!(Message::from_json(&with_id(Json::List(vec![]))), Err(DecodeError::WrongShape));
    assert_eq!(
        Message::from_json(&with_id(Json::Number(0))),
        Ok(message(MessageBody::Generate { msg_id: 0 }))
    );
    assert_eq!(Message::from_json(&Json::List(vec![])), Err(DecodeError::WrongShape));
    assert_eq!(Message::from_json(&Json::Null), Err(DecodeError::WrongShape));
    assert_eq!(Message::from_json(&object(vec![])), Err(DecodeError::MissingField));
}

#[test]
fn the_last_of_two_fields_with_one_key_counts() {
    let fields = vec![
        ("a".to_string(), Json::Number(1)),
        ("b".to_string(), Json::Number(2)),
        ("a".to_string(), Json::Number(3)),
    ];
    assert_eq!(lookup(&fields, "a"), Some(&Json::Number(3)));
    assert_eq!(lookup(&fields, "b"), Some(&Json::Number(2)));
    assert_eq!(lookup(&fields, "c"), None);
    assert_eq!(lookup(&vec![], "a"), None);
    let tree = object(vec![
        ("src", text("first")),
        ("dest", text("n3")),
        ("body", object(vec![("type", text("generate")), ("msg_id", Json::Number(1))])),
        ("src", text("second")),
    ]);
    assert_eq!(
        Message::from_json(&tree),
        Ok(Message {
            src: "second".to_string(),
            dst: "n3".to_string(),
            body: MessageBody::Generate { msg_id: 1 },
        })
    );
}
