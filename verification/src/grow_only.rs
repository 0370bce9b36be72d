//! The convergent counter engine: local increments accumulate into a pending
//! delta that a periodic commit cycle flushes to an external linearizable
//! key-value service with compare-and-swap, retrying on conflicts so that no
//! increment is lost or applied twice.

use vstd::prelude::*;
use vstd::string::StringExecFns;
use crate::msg::{ErrorCode, Init, Message, MsgId, MsgV, NodeId, Payload};
use crate::codec::{get_int, get_str, tag_is, JsonDecode, JsonEncode};
use crate::json::{fields_v, jv_get, Json, Jv};

verus! {

/// Requests and store replies the counter engine handles.
pub enum RequestMessages {
    Add { delta: u64 },
    Read {},
    ReadOk { value: u64 },
    CasOk {},
    Error { code: ErrorCode, text: String },
}

/// The model of a counter request or store reply.
pub enum RequestV {
    Add { delta: u64 },
    Read,
    ReadOk { value: u64 },
    CasOk,
    Error { code: ErrorCode, text: Seq<char> },
}

impl View for RequestMessages {
    type V = RequestV;

    open spec fn view(&self) -> RequestV {
        match self {
            RequestMessages::Add { delta } => RequestV::Add { delta: *delta },
            RequestMessages::Read {} => RequestV::Read,
            RequestMessages::ReadOk { value } => RequestV::ReadOk { value: *value },
            RequestMessages::CasOk {} => RequestV::CasOk,
            RequestMessages::Error { code, text } => RequestV::Error { code: *code, text: text@ },
        }
    }
}

impl Payload for RequestMessages {

}

/// Replies the counter engine sends to its clients.
#[derive(Debug, Clone, Copy, PartialEq, Eq, Structural)]
pub enum ResponseMessages {
    AddOk {},
    ReadOk { value: u64 },
}

impl View for ResponseMessages {
    type V = ResponseMessages;

    open spec fn view(&self) -> ResponseMessages {
        *self
    }
}

impl Payload for ResponseMessages {

}

/// Requests the counter engine sends to the external key-value service.
pub enum SeqKVRequest {
    Read { key: String },
    Cas { key: String, from: u64, to: u64, create_if_not_exists: Option<bool> },
}

/// The model of a key-value service request.
pub enum SeqKVRequestV {
    Read { key: Seq<char> },
    Cas { key: Seq<char>, from: u64, to: u64, create_if_not_exists: Option<bool> },
}

impl View for SeqKVRequest {
    type V = SeqKVRequestV;

    open spec fn view(&self) -> SeqKVRequestV {
        match self {
            SeqKVRequest::Read { key } => SeqKVRequestV::Read { key: key@ },
            SeqKVRequest::Cas { key, from, to, create_if_not_exists } => SeqKVRequestV::Cas {
                key: key@,
                from: *from,
                to: *to,
                create_if_not_exists: *create_if_not_exists,
            },
        }
    }
}

impl Payload for SeqKVRequest {

}

/// One event the counter engine consumes: the periodic commit tick or an
/// inbound message.
pub enum Action {
    Commit,
    Msg(Message<RequestMessages>),
}

/// The model of an event.
pub enum ActionV {
    Commit,
    Msg(MsgV<RequestV>),
}

impl View for Action {
    type V = ActionV;

    open spec fn view(&self) -> ActionV {
        match self {
            Action::Commit => ActionV::Commit,
            Action::Msg(m) => ActionV::Msg(m@),
        }
    }
}

/// One outbound message: a reply to a client, or a request to the store.
pub enum Outbound {
    Reply(Message<ResponseMessages>),
    Kv(Message<SeqKVRequest>),
}

/// The model of an outbound message.
pub enum OutboundV {
    Reply(MsgV<ResponseMessages>),
    Kv(MsgV<SeqKVRequestV>),
}

impl View for Outbound {
    type V = OutboundV;

    open spec fn view(&self) -> OutboundV {
        match self {
            Outbound::Reply(m) => OutboundV::Reply(m@),
            Outbound::Kv(m) => OutboundV::Kv(m@),
        }
    }
}

/// The model of the views of a list of outbound messages.
pub open spec fn outs_v(s: Seq<Outbound>) -> Seq<OutboundV> {
    Seq::new(s.len(), |i: int| s[i]@)
}

/// One write in flight against the external store.
#[derive(Debug, Clone, Copy, PartialEq, Eq, Structural)]
pub struct PendingWrite {
    /// The id of the compare-and-swap request, for matching its reply.
    pub msg_id: u64,
    /// The delta the write carries: restored on conflict.
    pub delta: u64,
    /// The value the write would leave in the store.
    pub target: u64,
}

/// The model of the counter engine's state.
pub struct GrowV {
    pub node_id: Seq<char>,
    pub msg_seq: u64,
    pub cur_delta: u64,
    pub last_read: u64,
    pub pending: Option<PendingWrite>,
}

/// The larger of two counter values.
pub open spec fn max_val(a: u64, b: u64) -> u64 {
    if a >= b {
        a
    } else {
        b
    }
}

/// The read request the engine sends to the store's counter key.
pub open spec fn kv_read_msg(pre: GrowV) -> OutboundV {
    OutboundV::Kv(
        MsgV {
            src: pre.node_id,
            dst: "seq-kv"@,
            msg_id: Some(pre.msg_seq),
            in_reply_to: None,
            payload: SeqKVRequestV::Read { key: "counter"@ },
        },
    )
}

/// The compare-and-swap request moving the counter key from `from` to `to`.
pub open spec fn kv_cas_msg(pre: GrowV, from: u64, to: u64) -> OutboundV {
    OutboundV::Kv(
        MsgV {
            src: pre.node_id,
            dst: "seq-kv"@,
            msg_id: Some(pre.msg_seq),
            in_reply_to: None,
            payload: SeqKVRequestV::Cas {
                key: "counter"@,
                from,
                to,
                create_if_not_exists: if from == 0 {
                    Some(true)
                } else {
                    None
                },
            },
        },
    )
}

/// The reply envelope to `m` stamped with the freshly minted `id`.
pub open spec fn reply_to(m: MsgV<RequestV>, id: u64, p: ResponseMessages) -> OutboundV {
    OutboundV::Reply(
        MsgV { src: m.dst, dst: m.src, msg_id: Some(id), in_reply_to: m.msg_id, payload: p },
    )
}

/// Whether `m` correlates to the write in flight, if any.
pub open spec fn matches_pending(pre: GrowV, m: MsgV<RequestV>) -> bool {
    match pre.pending {
        Some(p) => m.in_reply_to == Some(p.msg_id),
        None => false,
    }
}

/// The events the engine accepts in a given state: arithmetic on the counter
/// must not overflow, and a store error must be one of the two codes the
/// engine knows how to recover from.
pub open spec fn step_permitted(pre: GrowV, a: ActionV) -> bool {
    &&& pre.msg_seq < u64::MAX
    &&& match a {
        ActionV::Commit => true,
        ActionV::Msg(m) => match m.payload {
            RequestV::Add { delta } => pre.cur_delta + delta <= u64::MAX,
            RequestV::Read => true,
            RequestV::ReadOk { value } => max_val(pre.last_read, value) + pre.cur_delta
                <= u64::MAX,
            RequestV::CasOk => true,
            RequestV::Error { code, text } => {
                &&& (code == ErrorCode::PreConditionFailed || code == ErrorCode::KeyDoesNotExist)
                &&& (code == ErrorCode::PreConditionFailed && matches_pending(pre, m)
                    ==> pre.cur_delta + pre.pending->Some_0.delta <= u64::MAX)
            },
        },
    }
}

/// The full transition relation of the counter engine: how one consumed event
/// takes the state from `pre` to `post` and what it sends.
pub open spec fn grow_step(pre: GrowV, a: ActionV, post: GrowV, out: Seq<OutboundV>) -> bool {
    match a {
        ActionV::Commit => {
            if pre.pending is None {
                &&& post == (GrowV { msg_seq: (pre.msg_seq + 1) as u64, ..pre })
                &&& out == seq![kv_read_msg(pre)]
            } else {
                &&& post == pre
                &&& out == Seq::<OutboundV>::empty()
            }
        },
        ActionV::Msg(m) => match m.payload {
            RequestV::Add { delta } => {
                &&& post == (GrowV {
                    msg_seq: (pre.msg_seq + 1) as u64,
                    cur_delta: (pre.cur_delta + delta) as u64,
                    ..pre
                })
                &&& out == seq![reply_to(m, pre.msg_seq, ResponseMessages::AddOk {})]
            },
            RequestV::Read => {
                &&& post == (GrowV { msg_seq: (pre.msg_seq + 1) as u64, ..pre })
                &&& out == seq![
                    reply_to(m, pre.msg_seq, ResponseMessages::ReadOk { value: pre.last_read }),
                ]
            },
            RequestV::ReadOk { value } => {
                let base = max_val(pre.last_read, value);
                if pre.cur_delta != 0 && pre.pending is None {
                    let target = (base + pre.cur_delta) as u64;
                    &&& post == (GrowV {
                        msg_seq: (pre.msg_seq + 1) as u64,
                        cur_delta: 0,
                        last_read: base,
                        pending: Some(
                            PendingWrite { msg_id: pre.msg_seq, delta: pre.cur_delta, target },
                        ),
                        ..pre
                    })
                    &&& out == seq![kv_cas_msg(pre, base, target)]
                } else {
                    &&& post == (GrowV { last_read: base, ..pre })
                    &&& out == Seq::<OutboundV>::empty()
                }
            },
            RequestV::CasOk => {
                if matches_pending(pre, m) {
                    let p = pre.pending->Some_0;
                    &&& post == (GrowV {
                        last_read: max_val(pre.last_read, p.target),
                        pending: None,
                        ..pre
                    })
                    &&& out == Seq::<OutboundV>::empty()
                } else {
                    &&& post == pre
                    &&& out == Seq::<OutboundV>::empty()
                }
            },
            RequestV::Error { code, text } => {
                if code == ErrorCode::PreConditionFailed {
                    if matches_pending(pre, m) {
                        let p = pre.pending->Some_0;
                        &&& post == (GrowV {
                            msg_seq: (pre.msg_seq + 1) as u64,
                            cur_delta: (pre.cur_delta + p.delta) as u64,
                            pending: None,
                            ..pre
                        })
                        &&& out == seq![kv_read_msg(pre)]
                    } else {
                        &&& post == pre
                        &&& out == Seq::<OutboundV>::empty()
                    }
                } else {
                    if pre.pending is None {
                        &&& post == (GrowV {
                            msg_seq: (pre.msg_seq + 1) as u64,
                            cur_delta: 0,
                            pending: Some(
                                PendingWrite {
                                    msg_id: pre.msg_seq,
                                    delta: pre.cur_delta,
                                    target: pre.cur_delta,
                                },
                            ),
                            ..pre
                        })
                        &&& out == seq![kv_cas_msg(pre, 0, pre.cur_delta)]
                    } else {
                        &&& post == pre
                        &&& out == Seq::<OutboundV>::empty()
                    }
                }
            },
        },
    }
}

/// The increments this node has accepted but not yet seen committed: the
/// local accumulator plus whatever one in-flight write carries.
pub open spec fn unflushed(s: GrowV) -> int {
    s.cur_delta + (match s.pending {
        Some(p) => p.delta as int,
        None => 0int,
    })
}

/// Conservation of increments: the unflushed amount grows by exactly the
/// delta of each accepted add, shrinks by exactly the delta of each write the
/// store confirms committed, and survives everything else unchanged —
/// conflicts and retries included. Together with the store adding exactly
/// `to - from == delta` on each committed compare-and-swap, every add is
/// counted once and only once.
pub proof fn lemma_delta_conservation(pre: GrowV, a: ActionV, post: GrowV, out: Seq<OutboundV>)
    requires
        step_permitted(pre, a),
        grow_step(pre, a, post, out),
    ensures
        match a {
            ActionV::Msg(m) => match m.payload {
                RequestV::Add { delta } => unflushed(post) == unflushed(pre) + delta,
                RequestV::CasOk => if matches_pending(pre, m) {
                    unflushed(post) == unflushed(pre) - pre.pending->Some_0.delta
                } else {
                    unflushed(post) == unflushed(pre)
                },
                _ => unflushed(post) == unflushed(pre),
            },
            ActionV::Commit => unflushed(post) == unflushed(pre),
        },
{
    match a {
        ActionV::Commit => {
        },
        ActionV::Msg(m) => match m.payload {
            RequestV::Add { delta } => {
            },
            RequestV::Read => {
            },
            RequestV::ReadOk { value } => {
            },
            RequestV::CasOk => {
            },
            RequestV::Error { code, text } => {
            },
        },
    }
}

/// A rejected compare-and-swap restores its delta exactly once: the matching
/// pending entry is consumed while its delta returns to the accumulator, so
/// replaying the same rejection changes nothing further.
pub proof fn lemma_cas_conflict_recovery(
    pre: GrowV,
    m: MsgV<RequestV>,
    post: GrowV,
    out: Seq<OutboundV>,
    post2: GrowV,
    out2: Seq<OutboundV>,
)
    requires
        step_permitted(pre, ActionV::Msg(m)),
        matches_pending(pre, m),
        m.payload matches RequestV::Error { code, .. } && code == ErrorCode::PreConditionFailed,
        grow_step(pre, ActionV::Msg(m), post, out),
        grow_step(post, ActionV::Msg(m), post2, out2),
    ensures
        post.cur_delta == pre.cur_delta + pre.pending->Some_0.delta,
        post.pending is None,
        post2.cur_delta == post.cur_delta,
        post2.pending is None,
        out2 == Seq::<OutboundV>::empty(),
{
}

/// The id stamped on an outbound message, if it carries one.
pub open spec fn out_msg_id(o: OutboundV) -> Option<u64> {
    match o {
        OutboundV::Reply(m) => m.msg_id,
        OutboundV::Kv(m) => m.msg_id,
    }
}

/// Successive outbound ids strictly increase by one: the counter engine too
/// advances its counter by exactly the number of messages it sent, each
/// stamped with the counter's old value.
pub proof fn lemma_counter_id_monotonicity(
    pre: GrowV,
    a: ActionV,
    post: GrowV,
    out: Seq<OutboundV>,
)
    requires
        step_permitted(pre, a),
        grow_step(pre, a, post, out),
    ensures
        post.msg_seq == pre.msg_seq + out.len(),
        forall|i: int|
            0 <= i < out.len() ==> out_msg_id(#[trigger] out[i]) == Some((pre.msg_seq + i) as u64),
{
    match a {
        ActionV::Commit => {
        },
        ActionV::Msg(m) => match m.payload {
            RequestV::Add { delta } => {
            },
            RequestV::Read => {
            },
            RequestV::ReadOk { value } => {
            },
            RequestV::CasOk => {
            },
            RequestV::Error { code, text } => {
            },
        },
    }
}

/// The counter engine's state: owned by one processing loop.
pub struct GrowOnlyNode {
    node_id: NodeId,
    msg_seq: MsgId,
    cur_delta: u64,
    last_read: u64,
    pending: Option<PendingWrite>,
}

impl View for GrowOnlyNode {
    type V = GrowV;

    closed spec fn view(&self) -> GrowV {
        GrowV {
            node_id: self.node_id@,
            msg_seq: self.msg_seq@,
            cur_delta: self.cur_delta,
            last_read: self.last_read,
            pending: self.pending,
        }
    }
}

impl GrowOnlyNode {
    /// A fresh engine: nothing accumulated, nothing observed, nothing in
    /// flight, first outbound id is one.
    pub fn new(init: Init) -> (r: GrowOnlyNode)
        ensures
            r@.node_id == init@.node_id,
            r@.msg_seq == 1,
            r@.cur_delta == 0,
            r@.last_read == 0,
            r@.pending is None,
    {
        match init {
            Init::Init { node_id, node_ids: _ } => GrowOnlyNode {
                node_id,
                msg_seq: MsgId::one(),
                cur_delta: 0,
                last_read: 0,
                pending: None,
            },
        }
    }

    /// Whether the engine accepts this event in its current state; callers
    /// check this before each step.
    pub fn permits(&self, action: &Action) -> (r: bool)
        ensures
            r == step_permitted(self@, action@),
    {
        if !(self.msg_seq.as_u64() < u64::MAX) {
            return false;
        }
        match action {
            Action::Commit => true,
            Action::Msg(m) => match m.payload() {
                RequestMessages::Add { delta } => *delta <= u64::MAX - self.cur_delta,
                RequestMessages::Read {} => true,
                RequestMessages::ReadOk { value } => {
                    let base = if *value > self.last_read {
                        *value
                    } else {
                        self.last_read
                    };
                    self.cur_delta <= u64::MAX - base
                },
                RequestMessages::CasOk {} => true,
                RequestMessages::Error { code, text: _ } => {
                    let known = *code == ErrorCode::PreConditionFailed || *code
                        == ErrorCode::KeyDoesNotExist;
                    if !known {
                        return false;
                    }
                    if *code == ErrorCode::PreConditionFailed {
                        let hit = match (&self.pending, m.in_response_to()) {
                            (Some(p), Some(r)) => r.as_u64() == p.msg_id,
                            _ => false,
                        };
                        if hit {
                            let d = match &self.pending {
                                Some(p) => p.delta,
                                None => 0,
                            };
                            d <= u64::MAX - self.cur_delta
                        } else {
                            true
                        }
                    } else {
                        true
                    }
                },
            },
        }
    }

    /// The read request this engine sends to the store's counter key.
    fn kv_read(&mut self) -> (r: Message<SeqKVRequest>)
        requires
            old(self)@.msg_seq < u64::MAX,
        ensures
            final(self)@ == (GrowV { msg_seq: (old(self)@.msg_seq + 1) as u64, ..old(self)@ }),
            OutboundV::Kv(r@) == kv_read_msg(old(self)@),
    {
        let id = self.msg_seq.mint();
        Message::new(
            self.node_id.clone(),
            NodeId::seq_kv(),
            Some(id),
            SeqKVRequest::Read { key: String::from_str("counter") },
        )
    }

    /// Consumes one event and returns the messages to send, as the transition
    /// relation `grow_step` prescribes.
    pub fn step(&mut self, action: Action) -> (out: Vec<Outbound>)
        requires
            step_permitted(old(self)@, action@),
        ensures
            grow_step(old(self)@, action@, final(self)@, outs_v(out@)),
    {
        let ghost pre = self@;
        let mut out: Vec<Outbound> = Vec::new();
        match action {
            Action::Commit => {
                if self.pending.is_none() {
                    let msg = self.kv_read();
                    out.push(Outbound::Kv(msg));
                    proof {
                        assert(outs_v(out@) =~= seq![kv_read_msg(pre)]);
                    }
                } else {
                    proof {
                        assert(outs_v(out@) =~= Seq::<OutboundV>::empty());
                    }
                }
            },
            Action::Msg(m) => {
                match m.payload() {
                    RequestMessages::Add { delta } => {
                        self.cur_delta = self.cur_delta + *delta;
                        let id = self.msg_seq.mint();
                        out.push(Outbound::Reply(m.respond(Some(id), ResponseMessages::AddOk {})));
                        proof {
                            assert(outs_v(out@) =~= seq![
                                reply_to(m@, pre.msg_seq, ResponseMessages::AddOk {}),
                            ]);
                        }
                    },
                    RequestMessages::Read {} => {
                        let id = self.msg_seq.mint();
                        let value = self.last_read;
                        out.push(
                            Outbound::Reply(
                                m.respond(Some(id), ResponseMessages::ReadOk { value }),
                            ),
                        );
                        proof {
                            assert(outs_v(out@) =~= seq![
                                reply_to(
                                    m@,
                                    pre.msg_seq,
                                    ResponseMessages::ReadOk { value: pre.last_read },
                                ),
                            ]);
                        }
                    },
                    RequestMessages::ReadOk { value } => {
                        let base = if *value > self.last_read {
                            *value
                        } else {
                            self.last_read
                        };
                        self.last_read = base;
                        if self.cur_delta != 0 && self.pending.is_none() {
                            let delta = self.cur_delta;
                            let target = base + delta;
                            let id = self.msg_seq.mint();
                            self.pending = Some(
                                PendingWrite { msg_id: id.as_u64(), delta, target },
                            );
                            self.cur_delta = 0;
                            let create = if base == 0 {
                                Some(true)
                            } else {
                                None
                            };
                            let msg = Message::new(
                                self.node_id.clone(),
                                NodeId::seq_kv(),
                                Some(id),
                                SeqKVRequest::Cas {
                                    key: String::from_str("counter"),
                                    from: base,
                                    to: target,
                                    create_if_not_exists: create,
                                },
                            );
                            out.push(Outbound::Kv(msg));
                            proof {
                                assert(outs_v(out@) =~= seq![kv_cas_msg(pre, base, target)]);
                            }
                        } else {
                            proof {
                                assert(outs_v(out@) =~= Seq::<OutboundV>::empty());
                            }
                        }
                    },
                    RequestMessages::CasOk {} => {
                        let hit = match (&self.pending, m.in_response_to()) {
                            (Some(p), Some(r)) => r.as_u64() == p.msg_id,
                            _ => false,
                        };
                        if hit {
                            let target = match &self.pending {
                                Some(p) => p.target,
                                None => 0,
                            };
                            if target > self.last_read {
                                self.last_read = target;
                            }
                            self.pending = None;
                        }
                        proof {
                            assert(outs_v(out@) =~= Seq::<OutboundV>::empty());
                        }
                    },
                    RequestMessages::Error { code, text: _ } => {
                        match code {
                            ErrorCode::PreConditionFailed => {
                                let hit = match (&self.pending, m.in_response_to()) {
                                    (Some(p), Some(r)) => r.as_u64() == p.msg_id,
                                    _ => false,
                                };
                                if hit {
                                    let delta = match &self.pending {
                                        Some(p) => p.delta,
                                        None => 0,
                                    };
                                    self.cur_delta = self.cur_delta + delta;
                                    self.pending = None;
                                    let msg = self.kv_read();
                                    out.push(Outbound::Kv(msg));
                                    proof {
                                        assert(outs_v(out@) =~= seq![kv_read_msg(pre)]);
                                    }
                                } else {
                                    proof {
                                        assert(outs_v(out@) =~= Seq::<OutboundV>::empty());
                                    }
                                }
                            },
                            _ => {
                                if self.pending.is_none() {
                                    let delta = self.cur_delta;
                                    let id = self.msg_seq.mint();
                                    self.pending = Some(
                                        PendingWrite {
                                            msg_id: id.as_u64(),
                                            delta,
                                            target: delta,
                                        },
                                    );
                                    self.cur_delta = 0;
                                    let msg = Message::new(
                                        self.node_id.clone(),
                                        NodeId::seq_kv(),
                                        Some(id),
                                        SeqKVRequest::Cas {
                                            key: String::from_str("counter"),
                                            from: 0,
                                            to: delta,
                                            create_if_not_exists: Some(true),
                                        },
                                    );
                                    out.push(Outbound::Kv(msg));
                                    proof {
                                        assert(outs_v(out@) =~= seq![kv_cas_msg(pre, 0, pre.cur_delta)]);
                                    }
                                } else {
                                    proof {
                                        assert(outs_v(out@) =~= Seq::<OutboundV>::empty());
                                    }
                                }
                            },
                        }
                    },
                }
            },
        }
        out
    }
}

impl JsonDecode for RequestMessages {
    open spec fn spec_decode(fields: Seq<(Seq<char>, Jv)>) -> Option<RequestV> {
        match jv_get(fields, "type"@) {
            Some(Jv::Str(t)) => if t == "add"@ {
                match jv_get(fields, "delta"@) {
                    Some(Jv::Int(d)) => Some(RequestV::Add { delta: d }),
                    _ => None,
                }
            } else if t == "read"@ {
                Some(RequestV::Read)
            } else if t == "read_ok"@ {
                match jv_get(fields, "value"@) {
                    Some(Jv::Int(v)) => Some(RequestV::ReadOk { value: v }),
                    _ => None,
                }
            } else if t == "cas_ok"@ {
                Some(RequestV::CasOk)
            } else if t == "error"@ {
                match (jv_get(fields, "code"@), jv_get(fields, "text"@)) {
                    (Some(Jv::Int(c)), Some(Jv::Str(x))) => match ErrorCode::spec_from_code(c) {
                        Some(code) => Some(RequestV::Error { code, text: x }),
                        None => None,
                    },
                    _ => None,
                }
            } else {
                None
            },
            _ => None,
        }
    }

    fn decode_fields(fields: &Vec<(String, Json)>) -> (r: Option<Self>) {
        let t = match get_str(fields, &String::from_str("type")) {
            Some(t) => t,
            None => {
                return None;
            },
        };
        if tag_is(t, "add") {
            match get_int(fields, &String::from_str("delta")) {
                Some(d) => Some(RequestMessages::Add { delta: d }),
                None => None,
            }
        } else if tag_is(t, "read") {
            Some(RequestMessages::Read {  })
        } else if tag_is(t, "read_ok") {
            match get_int(fields, &String::from_str("value")) {
                Some(v) => Some(RequestMessages::ReadOk { value: v }),
                None => None,
            }
        } else if tag_is(t, "cas_ok") {
            Some(RequestMessages::CasOk {  })
        } else if tag_is(t, "error") {
            let c = match get_int(fields, &String::from_str("code")) {
                Some(c) => c,
                None => {
                    return None;
                },
            };
            let x = match get_str(fields, &String::from_str("text")) {
                Some(x) => x.clone(),
                None => {
                    return None;
                },
            };
            match ErrorCode::from_code(c) {
                Some(code) => Some(RequestMessages::Error { code, text: x }),
                None => None,
            }
        } else {
            None
        }
    }
}

impl JsonEncode for ResponseMessages {
    open spec fn fields_of(pv: ResponseMessages) -> Seq<(Seq<char>, Jv)> {
        match pv {
            ResponseMessages::AddOk {} => seq![("type"@, Jv::Str("add_ok"@))],
            ResponseMessages::ReadOk { value } => seq![
                ("type"@, Jv::Str("read_ok"@)),
                ("value"@, Jv::Int(value)),
            ],
        }
    }

    fn encode_fields(&self) -> (r: Vec<(String, Json)>) {
        let mut r: Vec<(String, Json)> = Vec::new();
        match self {
            ResponseMessages::AddOk {} => {
                r.push((String::from_str("type"), Json::Str(String::from_str("add_ok"))));
            },
            ResponseMessages::ReadOk { value } => {
                r.push((String::from_str("type"), Json::Str(String::from_str("read_ok"))));
                r.push((String::from_str("value"), Json::Int(*value)));
            },
        }
        proof {
            assert(fields_v(r@) =~= Self::fields_of(self@));
        }
        r
    }
}

impl JsonEncode for SeqKVRequest {
    open spec fn fields_of(pv: SeqKVRequestV) -> Seq<(Seq<char>, Jv)> {
        match pv {
            SeqKVRequestV::Read { key } => seq![
                ("type"@, Jv::Str("read"@)),
                ("key"@, Jv::Str(key)),
            ],
            SeqKVRequestV::Cas { key, from, to, create_if_not_exists } => seq![
                ("type"@, Jv::Str("cas"@)),
                ("key"@, Jv::Str(key)),
                ("from"@, Jv::Int(from)),
                ("to"@, Jv::Int(to)),
            ] + (match create_if_not_exists {
                Some(b) => seq![("create_if_not_exists"@, Jv::Bool(b))],
                None => Seq::empty(),
            }),
        }
    }

    fn encode_fields(&self) -> (r: Vec<(String, Json)>) {
        let mut r: Vec<(String, Json)> = Vec::new();
        match self {
            SeqKVRequest::Read { key } => {
                r.push((String::from_str("type"), Json::Str(String::from_str("read"))));
                r.push((String::from_str("key"), Json::Str(key.clone())));
            },
            SeqKVRequest::Cas { key, from, to, create_if_not_exists } => {
                r.push((String::from_str("type"), Json::Str(String::from_str("cas"))));
                r.push((String::from_str("key"), Json::Str(key.clone())));
                r.push((String::from_str("from"), Json::Int(*from)));
                r.push((String::from_str("to"), Json::Int(*to)));
                match create_if_not_exists {
                    Some(b) => {
                        r.push((String::from_str("create_if_not_exists"), Json::Bool(*b)));
                    },
                    None => {
                    },
                }
            },
        }
        proof {
            assert(fields_v(r@) =~= Self::fields_of(self@));
        }
        r
    }
}

} // verus!
