use node_protocol::Kind;
use node_protocol::Message;
use node_protocol::MessageBody;

fn request(body: MessageBody) -> Message {
    Message { src: "c1".to_string(), dst: "n3".to_string(), body }
}

#[test]
fn it_correctly_replies_to_init_request() {
    let req = Message {
        src: "c1".to_string(),
        dst: "n3".to_string(),
        body: MessageBody::Init {
            msg_id: 1,
            node_id: "n3".to_string(),
            node_ids: Vec::from(["n1".to_string(), "n2".to_string(), "n3".to_string()]),
        },
    };
    let res = req.get_response("n3", 0);
    let reply = res.encode().unwrap();
    assert_eq!(
        reply,
        r#"{"src":"n3","dest":"c1","body":{"type":"init_ok","in_reply_to":1}}"#
    );
}

#[test]
fn it_correctly_replies_to_echo_request() {
    let req = Message {
        src: "c1".to_string(),
        dst: "n3".to_string(),
        body: MessageBody::Echo { msg_id: 1, echo: "Please echo 98".to_string() },
    };
    let res = req.get_response("n3", 0);
    let reply = res.encode().unwrap();
    assert_eq!(
        reply,
        r#"{"src":"n3","dest":"c1","body":{"type":"echo_ok","msg_id":1,"in_reply_to":1,"echo":"Please echo 98"}}"#
    );
}

#[test]
fn it_correctly_replies_to_generate_request() {
    let req = Message {
        src: "c1".to_string(),
        dst: "n3".to_string(),
        body: MessageBody::Generate { msg_id: 1 },
    };
    let res = req.get_response("n3", 0);
    let reply = res.encode().unwrap();
    assert_eq!(
        reply,
        r#"{"src":"n3","dest":"c1","body":{"type":"generate_ok","msg_id":1,"in_reply_to":1,"id":"n3-0"}}"#
    );
}

#[test]
fn node_id_comes_from_the_handshake_only() {
    let init = request(MessageBody::Init {
        msg_id: 4,
        node_id: "n7".to_string(),
        node_ids: vec!["n7".to_string()],
    });
    assert_eq!(init.get_node_id(), Some("n7"));
    assert_eq!(request(MessageBody::Echo { msg_id: 1, echo: "n7".to_string() }).get_node_id(), None);
    assert_eq!(request(MessageBody::Generate { msg_id: 1 }).get_node_id(), None);
    assert_eq!(request(MessageBody::InitOk { in_reply_to: 1 }).get_node_id(), None);
}

#[test]
fn reply_goes_back_to_the_sender_in_the_nodes_name() {
    let req = Message {
        src: "client-9".to_string(),
        dst: "whoever".to_string(),
        body: MessageBody::Generate { msg_id: 12 },
    };
    let res = req.get_response("n1", 3);
    assert_eq!(res.src, "n1");
    assert_eq!(res.dst, "client-9");
}

#[test]
fn init_reply_carries_only_the_request_id() {
    let req = request(MessageBody::Init {
        msg_id: 77,
        node_id: "n3".to_string(),
        node_ids: vec![],
    });
    assert_eq!(req.get_response("n3", 0).body, MessageBody::InitOk { in_reply_to: 77 });
}

#[test]
fn echo_reply_reuses_the_request_id_and_payload() {
    let req = request(MessageBody::Echo { msg_id: 5, echo: "ping".to_string() });
    assert_eq!(
        req.get_response("n3", 9).body,
        MessageBody::EchoOk { msg_id: 5, in_reply_to: 5, echo: "ping".to_string() }
    );
}

#[test]
fn echo_payload_comes_back_character_for_character() {
    let payload = "tab\t quote\" backslash\\ newline\n snowman \u{2603} astral \u{1F600} nul \u{0}";
    let req = request(MessageBody::Echo { msg_id: 1, echo: payload.to_string() });
    match req.get_response("n3", 1).body {
        MessageBody::EchoOk { echo, .. } => assert_eq!(echo, payload),
        other => panic!("unexpected body {:?}", other),
    }
}

#[test]
fn generate_reply_names_node_and_counter() {
    let req = request(MessageBody::Generate { msg_id: 1 });
    assert_eq!(
        req.get_response("n3", 7).body,
        MessageBody::GenerateOk { msg_id: 1, in_reply_to: 1, id: "n3-7".to_string() }
    );
    assert_eq!(
        req.get_response("node-a", 1234567890).body,
        MessageBody::GenerateOk { msg_id: 1, in_reply_to: 1, id: "node-a-1234567890".to_string() }
    );
}

#[test]
fn every_reply_answers_its_request() {
    let requests = vec![
        request(MessageBody::Init { msg_id: 10, node_id: "n3".to_string(), node_ids: vec![] }),
        request(MessageBody::Echo { msg_id: 11, echo: "e".to_string() }),
        request(MessageBody::Generate { msg_id: 12 }),
    ];
    let mut answered = Vec::new();
    for req in &requests {
        answered.push(match req.get_response("n3", 1).body {
            MessageBody::InitOk { in_reply_to } => in_reply_to,
            MessageBody::EchoOk { in_reply_to, .. } => in_reply_to,
            MessageBody::GenerateOk { in_reply_to, .. } => in_reply_to,
            other => panic!("not a reply: {:?}", other),
        });
    }
    assert_eq!(answered, vec![10, 11, 12]);
}

#[test]
fn body_kinds_are_told_apart() {
    assert_eq!(MessageBody::Init { msg_id: 1, node_id: String::new(), node_ids: vec![] }.kind(), Kind::Init);
    assert_eq!(MessageBody::InitOk { in_reply_to: 1 }.kind(), Kind::InitOk);
    assert_eq!(MessageBody::Echo { msg_id: 1, echo: String::new() }.kind(), Kind::Echo);
    assert_eq!(
        MessageBody::EchoOk { msg_id: 1, in_reply_to: 1, echo: String::new() }.kind(),
        Kind::EchoOk
    );
    assert_eq!(MessageBody::Generate { msg_id: 1 }.kind(), Kind::Generate);
    assert_eq!(
        MessageBody::GenerateOk { msg_id: 1, in_reply_to: 1, id: String::new() }.kind(),
        Kind::GenerateOk
    );
}

#[test]
fn a_copy_of_a_message_is_the_same_message() {
    let init = request(MessageBody::Init {
        msg_id: 4,
        node_id: "n7".to_string(),
        node_ids: vec!["n6".to_string(), "n7".to_string()],
    });
    assert_eq!(init.clone(), init);
    let ok = request(MessageBody::GenerateOk { msg_id: 1, in_reply_to: 2, id: "n7-3".to_string() });
    assert_eq!(ok.clone(), ok);
    assert_ne!(ok.clone(), init);
}
