use dist_sys_challenge::broadcast::{Action, BroadcastNode, Knowledge, RequestMessages, ResponseMessages};
use dist_sys_challenge::echo::EchoMessages;
use dist_sys_challenge::json::parse_json;
use dist_sys_challenge::msg::{Init, Message, MsgId, NodeId};
use dist_sys_challenge::runtime::{encode_line, line_step, LineStep};

fn init_two() -> Init {
    Init::Init {
        node_id: NodeId::new(String::from("n1")),
        node_ids: vec![NodeId::new(String::from("n1")), NodeId::new(String::from("n2"))],
    }
}

fn client_msg(payload: RequestMessages) -> Message<RequestMessages> {
    Message::new(
        NodeId::new(String::from("c1")),
        NodeId::new(String::from("n1")),
        Some(MsgId::new(7)),
        payload,
    )
}

#[test]
fn deserialize() {
    let line = "{\"id\":90,\"src\":\"c2\",\"dest\":\"n0\",\"body\":{\"echo\":\"Please echo 98\",\"type\":\"echo\",\"msg_id\":45}}\n";
    let j = parse_json(line).expect("should be valid json");
    Message::<EchoMessages>::from_json(&j).expect("should be a valid message!");
    let line2 = r#"{"id":2,"src":"c2","dest":"n0","body":{"echo":"Please echo 15","type":"echo","msg_id":1}}"#;
    let j2 = parse_json(line2).expect("should be valid json");
    Message::<EchoMessages>::from_json(&j2).expect("should be a valid message");
}

#[test]
fn broadcast_then_read() {
    let mut node = BroadcastNode::new(init_two());
    let out = node.step(Action::Msg(client_msg(RequestMessages::Broadcast { message: 5 })));
    assert_eq!(out.len(), 1);
    assert!(matches!(out[0].payload(), ResponseMessages::BroadcastOk {}));
    assert_eq!(out[0].in_response_to(), Some(MsgId::new(7)));
    let out = node.step(Action::Msg(client_msg(RequestMessages::Read {})));
    assert_eq!(out.len(), 1);
    match out[0].payload() {
        ResponseMessages::ReadOk { messages } => assert_eq!(messages, &vec![5u64]),
        other => panic!("unexpected reply: {:?}", reply_kind(other)),
    }
}

fn reply_kind(r: &ResponseMessages) -> &'static str {
    match r {
        ResponseMessages::BroadcastOk {} => "broadcast_ok",
        ResponseMessages::ReadOk { .. } => "read_ok",
        ResponseMessages::TopologyOk {} => "topology_ok",
        ResponseMessages::Gossip { .. } => "gossip",
    }
}

#[test]
fn broadcast_is_idempotent() {
    let mut node = BroadcastNode::new(init_two());
    node.step(Action::Msg(client_msg(RequestMessages::Broadcast { message: 5 })));
    node.step(Action::Msg(client_msg(RequestMessages::Broadcast { message: 5 })));
    let out = node.step(Action::Msg(client_msg(RequestMessages::Read {})));
    match out[0].payload() {
        ResponseMessages::ReadOk { messages } => assert_eq!(messages, &vec![5u64]),
        _ => panic!("expected read_ok"),
    }
}

#[test]
fn message_ids_increase_by_one() {
    let mut node = BroadcastNode::new(init_two());
    let a = node.step(Action::Msg(client_msg(RequestMessages::Broadcast { message: 1 })));
    let b = node.step(Action::Msg(client_msg(RequestMessages::Read {})));
    let c = node.step(Action::Msg(client_msg(RequestMessages::Broadcast { message: 2 })));
    assert_eq!(a[0].id(), Some(MsgId::new(1)));
    assert_eq!(b[0].id(), Some(MsgId::new(2)));
    assert_eq!(c[0].id(), Some(MsgId::new(3)));
}

/// Carries outbound gossip over the wire codec into the receiving node.
fn deliver(out: Vec<Message<ResponseMessages>>, to: &mut BroadcastNode) {
    for m in out {
        let line = encode_line(&m);
        match line_step::<RequestMessages>(&line) {
            LineStep::Request(req) => {
                to.step(Action::Msg(req));
            },
            _ => panic!("gossip line did not decode as a request"),
        }
    }
}

/// One concurrent gossip round: both nodes tick, then both batches arrive.
fn tick_round(n1: &mut BroadcastNode, n2: &mut BroadcastNode) -> usize {
    let out1 = n1.step(Action::Gossip);
    let out2 = n2.step(Action::Gossip);
    let sent = out1.len() + out2.len();
    deliver(out1, n2);
    deliver(out2, n1);
    sent
}

#[test]
fn two_nodes_converge_on_seven() {
    let init1 = Init::Init {
        node_id: NodeId::new(String::from("n1")),
        node_ids: vec![NodeId::new(String::from("n1")), NodeId::new(String::from("n2"))],
    };
    let init2 = Init::Init {
        node_id: NodeId::new(String::from("n2")),
        node_ids: vec![NodeId::new(String::from("n1")), NodeId::new(String::from("n2"))],
    };
    let mut n1 = BroadcastNode::new(init1);
    let mut n2 = BroadcastNode::new(init2);
    // Each node gossips only to the other, as a topology message prescribes.
    let topology = |targets: &str| {
        vec![
            (NodeId::new(String::from("n1")), vec![NodeId::new(String::from(targets))]),
            (NodeId::new(String::from("n2")), vec![NodeId::new(String::from(targets))]),
        ]
    };
    n1.step(Action::Msg(client_msg(RequestMessages::Topology { topology: topology("n2") })));
    n2.step(Action::Msg(client_msg(RequestMessages::Topology { topology: topology("n1") })));
    n1.step(Action::Msg(client_msg(RequestMessages::Broadcast { message: 7 })));
    n2.step(Action::Msg(client_msg(RequestMessages::Broadcast { message: 7 })));
    // A few gossip rounds in both directions settle every (neighbor, value) pair.
    for _ in 0..3 {
        tick_round(&mut n1, &mut n2);
    }
    for node in [&mut n1, &mut n2] {
        let out = node.step(Action::Msg(client_msg(RequestMessages::Read {})));
        match out[0].payload() {
            ResponseMessages::ReadOk { messages } => assert!(messages.contains(&7)),
            _ => panic!("expected read_ok"),
        }
    }
    assert_eq!(
        n1.knowledge_of(&NodeId::new(String::from("n2")), 7),
        Some(Knowledge::Confirmed)
    );
    assert_eq!(
        n2.knowledge_of(&NodeId::new(String::from("n1")), 7),
        Some(Knowledge::Confirmed)
    );
    // Anti-entropy minimality: a converged pair gossips nothing more.
    assert_eq!(tick_round(&mut n1, &mut n2), 0);
}

#[test]
fn topology_redirects_gossip() {
    let mut node = BroadcastNode::new(init_two());
    let topology = vec![
        (NodeId::new(String::from("n1")), vec![NodeId::new(String::from("n9"))]),
        (NodeId::new(String::from("n2")), vec![NodeId::new(String::from("n1"))]),
    ];
    let out = node.step(Action::Msg(client_msg(RequestMessages::Topology { topology })));
    assert!(matches!(out[0].payload(), ResponseMessages::TopologyOk {}));
    node.step(Action::Msg(client_msg(RequestMessages::Broadcast { message: 4 })));
    let out = node.step(Action::Gossip);
    assert_eq!(out.len(), 1);
    let line = encode_line(&out[0]);
    assert!(line.contains("\"dest\":\"n9\""));
}
