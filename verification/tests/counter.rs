use dist_sys_challenge::grow_only::{
    Action, GrowOnlyNode, Outbound, RequestMessages, ResponseMessages, SeqKVRequest,
};
use dist_sys_challenge::msg::{ErrorCode, Init, Message, MsgId, NodeId};

fn one_node() -> Init {
    Init::Init {
        node_id: NodeId::new(String::from("n1")),
        node_ids: vec![NodeId::new(String::from("n1"))],
    }
}

fn client_msg(payload: RequestMessages) -> Message<RequestMessages> {
    Message::new(
        NodeId::new(String::from("c1")),
        NodeId::new(String::from("n1")),
        Some(MsgId::new(9)),
        payload,
    )
}

fn only_kv(mut out: Vec<Outbound>) -> Message<SeqKVRequest> {
    assert_eq!(out.len(), 1);
    match out.remove(0) {
        Outbound::Kv(m) => m,
        Outbound::Reply(_) => panic!("expected a store request"),
    }
}

#[test]
fn add_then_create_then_read() {
    let mut node = GrowOnlyNode::new(one_node());
    let out = node.step(Action::Msg(client_msg(RequestMessages::Add { delta: 3 })));
    assert_eq!(out.len(), 1);
    match &out[0] {
        Outbound::Reply(m) => assert!(matches!(m.payload(), ResponseMessages::AddOk {})),
        Outbound::Kv(_) => panic!("expected a client reply"),
    }
    // The commit tick reads the external counter.
    let read_req = only_kv(node.step(Action::Commit));
    match read_req.payload() {
        SeqKVRequest::Read { key } => assert_eq!(key.as_str(), "counter"),
        _ => panic!("expected a read"),
    }
    // The key does not exist yet: the engine creates it with the whole delta.
    let missing = read_req.respond(
        None,
        RequestMessages::Error { code: ErrorCode::KeyDoesNotExist, text: String::from("missing") },
    );
    let cas_req = only_kv(node.step(Action::Msg(missing)));
    match cas_req.payload() {
        SeqKVRequest::Cas { key, from, to, create_if_not_exists } => {
            assert_eq!(key.as_str(), "counter");
            assert_eq!(*from, 0);
            assert_eq!(*to, 3);
            assert_eq!(*create_if_not_exists, Some(true));
        },
        _ => panic!("expected a compare-and-swap"),
    }
    // The write commits; a read now answers with the committed value.
    let ok = cas_req.respond(None, RequestMessages::CasOk {});
    let out = node.step(Action::Msg(ok));
    assert_eq!(out.len(), 0);
    let out = node.step(Action::Msg(client_msg(RequestMessages::Read {})));
    match &out[0] {
        Outbound::Reply(m) => match m.payload() {
            ResponseMessages::ReadOk { value } => assert_eq!(*value, 3),
            _ => panic!("expected read_ok"),
        },
        Outbound::Kv(_) => panic!("expected a client reply"),
    }
}

#[test]
fn conflict_restores_delta_exactly_once() {
    let mut node = GrowOnlyNode::new(one_node());
    node.step(Action::Msg(client_msg(RequestMessages::Add { delta: 3 })));
    let read_req = only_kv(node.step(Action::Commit));
    // The external counter reads 10; the engine stages a write of 10 + 3.
    let read_ok = read_req.respond(None, RequestMessages::ReadOk { value: 10 });
    let cas_req = only_kv(node.step(Action::Msg(read_ok)));
    match cas_req.payload() {
        SeqKVRequest::Cas { from, to, create_if_not_exists, .. } => {
            assert_eq!(*from, 10);
            assert_eq!(*to, 13);
            assert_eq!(*create_if_not_exists, None);
        },
        _ => panic!("expected a compare-and-swap"),
    }
    // A concurrent writer wins: the write is rejected and the delta returns.
    let conflict = cas_req.respond(
        None,
        RequestMessages::Error {
            code: ErrorCode::PreConditionFailed,
            text: String::from("precondition failed"),
        },
    );
    let conflict_again = cas_req.respond(
        None,
        RequestMessages::Error {
            code: ErrorCode::PreConditionFailed,
            text: String::from("precondition failed"),
        },
    );
    let retry_read = only_kv(node.step(Action::Msg(conflict)));
    assert!(matches!(retry_read.payload(), SeqKVRequest::Read { .. }));
    // Replaying the same rejection changes nothing: the entry was consumed.
    let out = node.step(Action::Msg(conflict_again));
    assert_eq!(out.len(), 0);
    // The next read reply re-stages exactly the restored delta, once.
    let read_ok = retry_read.respond(None, RequestMessages::ReadOk { value: 11 });
    let cas_req = only_kv(node.step(Action::Msg(read_ok)));
    match cas_req.payload() {
        SeqKVRequest::Cas { from, to, .. } => {
            assert_eq!(*from, 11);
            assert_eq!(*to, 14);
        },
        _ => panic!("expected a compare-and-swap"),
    }
}

#[test]
fn commit_waits_for_the_write_in_flight() {
    let mut node = GrowOnlyNode::new(one_node());
    node.step(Action::Msg(client_msg(RequestMessages::Add { delta: 2 })));
    let read_req = only_kv(node.step(Action::Commit));
    let read_ok = read_req.respond(None, RequestMessages::ReadOk { value: 0 });
    let _cas = only_kv(node.step(Action::Msg(read_ok)));
    // With a write in flight, the commit tick stays quiet.
    let out = node.step(Action::Commit);
    assert_eq!(out.len(), 0);
}

#[test]
fn read_excludes_uncommitted_delta() {
    // Design choice carried over from the engine's semantics: a local read
    // answers with the last committed value only; this node's own unflushed
    // delta is not reflected until a compare-and-swap lands.
    let mut node = GrowOnlyNode::new(one_node());
    node.step(Action::Msg(client_msg(RequestMessages::Add { delta: 5 })));
    let out = node.step(Action::Msg(client_msg(RequestMessages::Read {})));
    match &out[0] {
        Outbound::Reply(m) => match m.payload() {
            ResponseMessages::ReadOk { value } => assert_eq!(*value, 0),
            _ => panic!("expected read_ok"),
        },
        Outbound::Kv(_) => panic!("expected a client reply"),
    }
}
