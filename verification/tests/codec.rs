use dist_sys_challenge::echo::{EchoMessages, EchoNode, EchoOkMessage};
use dist_sys_challenge::json::{json_to_string, parse_json, Json};
use dist_sys_challenge::msg::{ErrorCode, Init, Message, MsgId, NodeId};
use dist_sys_challenge::runtime::{encode_line, init_step, line_step, LineStep};
use dist_sys_challenge::unique_ids::{u64_to_string, RequestMessages, ResponseMessages, UniqueIdsNode};

#[test]
fn error_codes_ride_as_their_numbers() {
    assert_eq!(ErrorCode::Timeout.code(), 0);
    assert_eq!(ErrorCode::NodeNotFound.code(), 1);
    assert_eq!(ErrorCode::NotSupported.code(), 10);
    assert_eq!(ErrorCode::TemporarilyUnavailable.code(), 11);
    assert_eq!(ErrorCode::MalformedRequest.code(), 12);
    assert_eq!(ErrorCode::Chrash.code(), 13);
    assert_eq!(ErrorCode::Abort.code(), 14);
    assert_eq!(ErrorCode::KeyDoesNotExist.code(), 20);
    assert_eq!(ErrorCode::KeyExistsAlready.code(), 21);
    assert_eq!(ErrorCode::PreConditionFailed.code(), 22);
    assert_eq!(ErrorCode::TransactionConflict.code(), 30);
    assert_eq!(ErrorCode::custom(1500).code(), 1500);
}

#[test]
fn error_codes_decode_back() {
    for code in [0u64, 1, 10, 11, 12, 13, 14, 20, 21, 22, 30, 1500] {
        let decoded = ErrorCode::from_code(code).expect("a known code");
        assert_eq!(decoded.code(), code);
    }
    // Values between the closed set and the user-defined range decode to nothing.
    assert_eq!(ErrorCode::from_code(2), None);
    assert_eq!(ErrorCode::from_code(999), None);
}

#[test]
fn decimal_rendering_is_exact() {
    assert_eq!(u64_to_string(0).as_str(), "0");
    assert_eq!(u64_to_string(7).as_str(), "7");
    assert_eq!(u64_to_string(105).as_str(), "105");
    assert_eq!(u64_to_string(u64::MAX).as_str(), "18446744073709551615");
}

#[test]
fn generated_ids_join_sequence_and_identity() {
    let init = Init::Init {
        node_id: NodeId::new(String::from("n3")),
        node_ids: vec![NodeId::new(String::from("n3"))],
    };
    let mut node = UniqueIdsNode::new(init);
    let req = Message::new(
        NodeId::new(String::from("c1")),
        NodeId::new(String::from("n3")),
        Some(MsgId::new(4)),
        RequestMessages::Generate {},
    );
    let a = node.process(&req);
    let b = node.process(&req);
    match (a.payload(), b.payload()) {
        (ResponseMessages::GenerateOk { id: ia }, ResponseMessages::GenerateOk { id: ib }) => {
            assert_eq!(ia.as_str(), "1@n3");
            assert_eq!(ib.as_str(), "2@n3");
        },
    }
}

#[test]
fn echo_returns_the_same_text() {
    let init = Init::Init {
        node_id: NodeId::new(String::from("n0")),
        node_ids: vec![NodeId::new(String::from("n0"))],
    };
    let mut node = EchoNode::new(init);
    let req = Message::new(
        NodeId::new(String::from("c2")),
        NodeId::new(String::from("n0")),
        Some(MsgId::new(45)),
        EchoMessages::Echo { echo: String::from("Please echo 98") },
    );
    let reply = node.process(&req);
    match reply.payload() {
        EchoOkMessage::EchoOk { echo } => assert_eq!(echo.as_str(), "Please echo 98"),
    }
    assert_eq!(reply.in_response_to(), Some(MsgId::new(45)));
}

#[test]
fn encoded_lines_are_exact_json() {
    let reply = Message::new(
        NodeId::new(String::from("n0")),
        NodeId::new(String::from("c2")),
        Some(MsgId::new(1)),
        EchoOkMessage::EchoOk { echo: String::from("hi") },
    );
    let line = encode_line(&reply);
    assert_eq!(
        line,
        r#"{"body":{"echo":"hi","in_reply_to":null,"msg_id":1,"type":"echo_ok"},"dest":"c2","src":"n0"}"#
    );
}

#[test]
fn json_boundary_is_not_a_pass_through() {
    let j = parse_json("{\"x\": 5, \"y\": [true, null, \"z\"]}").expect("valid json");
    let printed = json_to_string(&j);
    assert_eq!(printed, r#"{"x":5,"y":[true,null,"z"]}"#);
    assert_eq!(json_to_string(&Json::Int(5)).as_str(), "5");
    assert_eq!(
        json_to_string(&Json::Str(String::from("a\"b"))).as_str(),
        "\"a\\\"b\""
    );
    assert!(parse_json("not json").is_none());
    // Numbers outside the unsigned 64-bit range have no tree to decode to.
    assert!(parse_json("-1").is_none());
    assert!(parse_json("1.5").is_none());
}

#[test]
fn init_line_is_acknowledged_with_id_zero() {
    let line = r#"{"src":"c0","dest":"n1","body":{"type":"init","msg_id":1,"node_id":"n1","node_ids":["n1","n2"]}}"#;
    let (init, out) = init_step(line).expect("a well-formed init line");
    match init {
        Init::Init { node_id, node_ids } => {
            assert_eq!(node_id.name().as_str(), "n1");
            assert_eq!(node_ids.len(), 2);
        },
    }
    assert_eq!(
        out,
        r#"{"body":{"in_reply_to":1,"msg_id":0,"type":"init_ok"},"dest":"c0","src":"n1"}"#
    );
}

#[test]
fn malformed_requests_are_answered_in_band() {
    // The body is not an echo request, but the routing fields are readable.
    let line = r#"{"src":"c1","dest":"n1","body":{"type":"mystery","msg_id":8}}"#;
    match line_step::<EchoMessages>(line) {
        LineStep::Malformed(e) => {
            assert_eq!(e.in_response_to(), Some(MsgId::new(8)));
            let out = encode_line(&e);
            assert!(out.contains("\"code\":12"));
        },
        _ => panic!("expected a malformed-request reply"),
    }
    // Not even the routing fields: fatal.
    assert!(matches!(line_step::<EchoMessages>("{\"src\": 3}"), LineStep::Fatal));
    assert!(matches!(line_step::<EchoMessages>("garbage"), LineStep::Fatal));
}
