//! The gossip broadcast engine: an eventually-consistent replicated value
//! set, with per-(neighbor, value) knowledge tracking so that a periodic tick
//! retransmits only what the neighbor is not yet known to know.

use vstd::prelude::*;
use crate::msg::{ids_v, Init, Message, MsgId, MsgV, NodeId, Payload};
use crate::codec::{arr_v, arr_view_fact, decode_ids, get_arr, get_int, get_obj, get_str, ids_of_jv, obj_view_fact, tag_is, JsonDecode, JsonEncode};
use crate::json::{fields_v, jv_get, Json, Jv};

verus! {

/// A value claim carried in a gossip message: the sender knows the value and
/// either believes we do not know it yet, or confirms it knows that we know.
#[derive(Debug, Clone, Copy, PartialEq, Eq, Structural)]
pub enum News {
    NewValue(u64),
    VerifiedValue(u64),
}

pub open spec fn news_value(x: News) -> u64 {
    match x {
        News::NewValue(v) => v,
        News::VerifiedValue(v) => v,
    }
}

/// The knowledge a claim conveys about the sender.
pub open spec fn news_knowledge(x: News) -> Knowledge {
    match x {
        News::NewValue(_) => Knowledge::ToBeConfirmed,
        News::VerifiedValue(_) => Knowledge::Confirmed,
    }
}

/// What this node knows about one neighbor's awareness of one value.
#[derive(Debug, Clone, Copy, PartialEq, Eq, Structural)]
pub enum Knowledge {
    /// The neighbor knows the value, but does not yet know that we know.
    ToBeConfirmed,
    /// Both sides know that the other knows: nothing left to gossip.
    Confirmed,
}

/// Requests the broadcast engine handles.
pub enum RequestMessages {
    Broadcast { message: u64 },
    Read {},
    Topology { topology: Vec<(NodeId, Vec<NodeId>)> },
    Gossip { news: Vec<News> },
}

/// The model of a broadcast request.
pub enum RequestV {
    Broadcast { message: u64 },
    Read,
    Topology { topology: Seq<(Seq<char>, Seq<Seq<char>>)> },
    Gossip { news: Seq<News> },
}

/// The model of a topology map: each node's designated neighbor list.
pub open spec fn topo_v(s: Seq<(NodeId, Vec<NodeId>)>) -> Seq<(Seq<char>, Seq<Seq<char>>)> {
    Seq::new(s.len(), |i: int| (s[i].0@, ids_v(s[i].1@)))
}

impl View for RequestMessages {
    type V = RequestV;

    open spec fn view(&self) -> RequestV {
        match self {
            RequestMessages::Broadcast { message } => RequestV::Broadcast { message: *message },
            RequestMessages::Read {} => RequestV::Read,
            RequestMessages::Topology { topology } => RequestV::Topology {
                topology: topo_v(topology@),
            },
            RequestMessages::Gossip { news } => RequestV::Gossip { news: news@ },
        }
    }
}

impl Payload for RequestMessages {

}

/// Responses and node-initiated gossip the broadcast engine emits.
pub enum ResponseMessages {
    BroadcastOk {},
    ReadOk { messages: Vec<u64> },
    TopologyOk {},
    Gossip { news: Vec<News> },
}

/// The model of a broadcast response.
pub enum ResponseV {
    BroadcastOk,
    ReadOk { messages: Seq<u64> },
    TopologyOk,
    Gossip { news: Seq<News> },
}

impl View for ResponseMessages {
    type V = ResponseV;

    open spec fn view(&self) -> ResponseV {
        match self {
            ResponseMessages::BroadcastOk {} => ResponseV::BroadcastOk,
            ResponseMessages::ReadOk { messages } => ResponseV::ReadOk { messages: messages@ },
            ResponseMessages::TopologyOk {} => ResponseV::TopologyOk,
            ResponseMessages::Gossip { news } => ResponseV::Gossip { news: news@ },
        }
    }
}

impl Payload for ResponseMessages {

}

/// One event the engine consumes: an inbound message, or the periodic tick
/// that drives anti-entropy gossip.
pub enum Action {
    Msg(Message<RequestMessages>),
    Gossip,
}

/// The model of an event.
pub enum ActionV {
    Msg(MsgV<RequestV>),
    Gossip,
}

impl View for Action {
    type V = ActionV;

    open spec fn view(&self) -> ActionV {
        match self {
            Action::Msg(m) => ActionV::Msg(m@),
            Action::Gossip => ActionV::Gossip,
        }
    }
}

/// The model of the views of a list of outbound messages.
pub open spec fn msgs_v(s: Seq<Message<ResponseMessages>>) -> Seq<MsgV<ResponseV>> {
    Seq::new(s.len(), |i: int| s[i]@)
}

/// First-match lookup in the knowledge table.
pub open spec fn know_find(tbl: Seq<(NodeId, u64, Knowledge)>, n: Seq<char>, v: u64) -> Option<
    Knowledge,
>
    decreases tbl.len(),
{
    if tbl.len() == 0 {
        None
    } else if tbl[0].0@ == n && tbl[0].1 == v {
        Some(tbl[0].2)
    } else {
        know_find(tbl.drop_first(), n, v)
    }
}

/// The knowledge table as a map from (neighbor, value) to knowledge state.
pub open spec fn know_map(tbl: Seq<(NodeId, u64, Knowledge)>) -> Map<(Seq<char>, u64), Knowledge> {
    Map::new(
        |k: (Seq<char>, u64)| know_find(tbl, k.0, k.1) is Some,
        |k: (Seq<char>, u64)| know_find(tbl, k.0, k.1)->Some_0,
    )
}

/// First-match lookup of a node's designated neighbor list in a topology map.
pub open spec fn topo_find(t: Seq<(Seq<char>, Seq<Seq<char>>)>, n: Seq<char>) -> Option<
    Seq<Seq<char>>,
>
    decreases t.len(),
{
    if t.len() == 0 {
        None
    } else if t[0].0 == n {
        Some(t[0].1)
    } else {
        topo_find(t.drop_first(), n)
    }
}

/// The seen sequence after absorbing a list of gossiped claims in order:
/// each value is appended unless already present.
pub open spec fn seen_plus_news(seen: Seq<u64>, news: Seq<News>) -> Seq<u64>
    decreases news.len(),
{
    if news.len() == 0 {
        seen
    } else {
        let v = news_value(news[0]);
        let s1 = if seen.contains(v) {
            seen
        } else {
            seen.push(v)
        };
        seen_plus_news(s1, news.drop_first())
    }
}

/// The knowledge map after absorbing a list of gossiped claims from `sender`
/// in order.
pub open spec fn know_plus_news(
    know: Map<(Seq<char>, u64), Knowledge>,
    sender: Seq<char>,
    news: Seq<News>,
) -> Map<(Seq<char>, u64), Knowledge>
    decreases news.len(),
{
    if news.len() == 0 {
        know
    } else {
        know_plus_news(
            know.insert((sender, news_value(news[0])), news_knowledge(news[0])),
            sender,
            news.drop_first(),
        )
    }
}

/// The claims worth sending to neighbor `n`: a fresh claim for each seen
/// value the neighbor is not known to know, a confirming claim for each the
/// neighbor knows but has not heard that we know, nothing once confirmed.
pub open spec fn news_for(
    seen: Seq<u64>,
    know: Map<(Seq<char>, u64), Knowledge>,
    n: Seq<char>,
) -> Seq<News>
    decreases seen.len(),
{
    if seen.len() == 0 {
        Seq::empty()
    } else {
        let v = seen[0];
        let rest = news_for(seen.drop_first(), know, n);
        if !know.dom().contains((n, v)) {
            seq![News::NewValue(v)] + rest
        } else if know[(n, v)] == Knowledge::ToBeConfirmed {
            seq![News::VerifiedValue(v)] + rest
        } else {
            rest
        }
    }
}

/// The gossip messages one tick sends: one per neighbor with something worth
/// saying, in neighbor order, with consecutive ids from `next_id` on.
pub open spec fn tick_msgs(
    node: Seq<char>,
    neighbors: Seq<Seq<char>>,
    seen: Seq<u64>,
    know: Map<(Seq<char>, u64), Knowledge>,
    next_id: int,
) -> Seq<MsgV<ResponseV>>
    decreases neighbors.len(),
{
    if neighbors.len() == 0 {
        Seq::empty()
    } else {
        let ns = news_for(seen, know, neighbors[0]);
        if ns.len() == 0 {
            tick_msgs(node, neighbors.drop_first(), seen, know, next_id)
        } else {
            seq![
                MsgV {
                    src: node,
                    dst: neighbors[0],
                    msg_id: Some(next_id as u64),
                    in_reply_to: None,
                    payload: ResponseV::Gossip { news: ns },
                },
            ] + tick_msgs(node, neighbors.drop_first(), seen, know, next_id + 1)
        }
    }
}

/// The model of the broadcast engine's state.
pub struct BroadcastV {
    pub node_id: Seq<char>,
    pub neighbors: Seq<Seq<char>>,
    pub msg_seq: u64,
    pub seen: Seq<u64>,
    pub know: Map<(Seq<char>, u64), Knowledge>,
}

impl BroadcastV {
    /// Well-formedness: the seen values are distinct.
    pub open spec fn wf(&self) -> bool {
        forall|i: int, j: int|
            0 <= i < j < self.seen.len() ==> self.seen[i] != self.seen[j]
    }
}

/// The reply envelope to `m` stamped with the freshly minted `id`.
pub open spec fn reply_to(m: MsgV<RequestV>, id: u64, p: ResponseV) -> MsgV<ResponseV> {
    MsgV { src: m.dst, dst: m.src, msg_id: Some(id), in_reply_to: m.msg_id, payload: p }
}

/// The full transition relation of the broadcast engine: how one consumed
/// event takes the state from `pre` to `post` and what it sends.
pub open spec fn bcast_step(
    pre: BroadcastV,
    a: ActionV,
    post: BroadcastV,
    out: Seq<MsgV<ResponseV>>,
) -> bool {
    match a {
        ActionV::Msg(m) => match m.payload {
            RequestV::Broadcast { message } => {
                &&& post.node_id == pre.node_id
                &&& post.neighbors == pre.neighbors
                &&& post.msg_seq == pre.msg_seq + 1
                &&& post.seen == (if pre.seen.contains(message) {
                    pre.seen
                } else {
                    pre.seen.push(message)
                })
                &&& post.know == pre.know
                &&& out == seq![reply_to(m, pre.msg_seq, ResponseV::BroadcastOk)]
            },
            RequestV::Read => {
                &&& post.node_id == pre.node_id
                &&& post.neighbors == pre.neighbors
                &&& post.msg_seq == pre.msg_seq + 1
                &&& post.seen == pre.seen
                &&& post.know == pre.know
                &&& out == seq![
                    reply_to(m, pre.msg_seq, ResponseV::ReadOk { messages: pre.seen }),
                ]
            },
            RequestV::Topology { topology } => {
                &&& post.node_id == pre.node_id
                &&& post.neighbors == (match topo_find(topology, pre.node_id) {
                    Some(ns) => ns,
                    None => pre.neighbors,
                })
                &&& post.msg_seq == pre.msg_seq + 1
                &&& post.seen == pre.seen
                &&& post.know == pre.know
                &&& out == seq![reply_to(m, pre.msg_seq, ResponseV::TopologyOk)]
            },
            RequestV::Gossip { news } => {
                &&& post.node_id == pre.node_id
                &&& post.neighbors == pre.neighbors
                &&& post.msg_seq == pre.msg_seq
                &&& post.seen == seen_plus_news(pre.seen, news)
                &&& post.know == know_plus_news(pre.know, m.src, news)
                &&& out == Seq::<MsgV<ResponseV>>::empty()
            },
        },
        ActionV::Gossip => {
            &&& post.node_id == pre.node_id
            &&& post.neighbors == pre.neighbors
            &&& post.seen == pre.seen
            &&& post.know == pre.know
            &&& out == tick_msgs(
                pre.node_id,
                pre.neighbors,
                pre.seen,
                pre.know,
                pre.msg_seq as int,
            )
            &&& post.msg_seq == pre.msg_seq + out.len()
        },
    }
}

/// The broadcast engine's state: owned by one processing loop, mutated by
/// nothing else.
pub struct BroadcastNode {
    node_id: NodeId,
    neighbors: Vec<NodeId>,
    msg_seq: MsgId,
    seen: Vec<u64>,
    knowledge: Vec<(NodeId, u64, Knowledge)>,
}

impl View for BroadcastNode {
    type V = BroadcastV;

    closed spec fn view(&self) -> BroadcastV {
        BroadcastV {
            node_id: self.node_id@,
            neighbors: ids_v(self.neighbors@),
            msg_seq: self.msg_seq@,
            seen: self.seen@,
            know: know_map(self.knowledge@),
        }
    }
}

proof fn lemma_know_find_skip(tbl: Seq<(NodeId, u64, Knowledge)>, n: Seq<char>, v: u64, i: int)
    requires
        0 <= i <= tbl.len(),
        forall|k: int| 0 <= k < i ==> !(tbl[k].0@ == n && tbl[k].1 == v),
    ensures
        know_find(tbl, n, v) == know_find(tbl.skip(i), n, v),
    decreases i,
{
    if i > 0 {
        let tail = tbl.skip(1);
        assert(tbl.drop_first() =~= tail);
        assert forall|k: int| 0 <= k < i - 1 implies !(tail[k].0@ == n && tail[k].1 == v) by {
            assert(!(tbl[k + 1].0@ == n && tbl[k + 1].1 == v));
        }
        lemma_know_find_skip(tail, n, v, i - 1);
        assert(tail.skip(i - 1) =~= tbl.skip(i));
    } else {
        assert(tbl.skip(0) =~= tbl);
    }
}

/// Looks up what is known about neighbor `n`'s awareness of `v`.
fn know_get(tbl: &Vec<(NodeId, u64, Knowledge)>, n: &NodeId, v: u64) -> (r: Option<Knowledge>)
    ensures
        r == know_find(tbl@, n@, v),
{
    let mut i: usize = 0;
    while i < tbl.len()
        invariant
            0 <= i <= tbl.len(),
            forall|k: int| 0 <= k < i ==> !(tbl@[k].0@ == n@ && tbl@[k].1 == v),
        decreases tbl.len() - i,
    {
        if tbl[i].0 == *n && tbl[i].1 == v {
            proof {
                lemma_know_find_skip(tbl@, n@, v, i as int);
                assert(tbl@.skip(i as int)[0] == tbl@[i as int]);
            }
            return Some(tbl[i].2);
        }
        i += 1;
    }
    proof {
        lemma_know_find_skip(tbl@, n@, v, tbl@.len() as int);
        assert(tbl@.skip(tbl@.len() as int) =~= Seq::empty());
    }
    None
}

proof fn lemma_know_find_update(
    tbl: Seq<(NodeId, u64, Knowledge)>,
    i: int,
    e: (NodeId, u64, Knowledge),
    n2: Seq<char>,
    v2: u64,
)
    requires
        0 <= i < tbl.len(),
        tbl[i].0@ == e.0@ && tbl[i].1 == e.1,
        forall|k: int| 0 <= k < i ==> !(tbl[k].0@ == e.0@ && tbl[k].1 == e.1),
    ensures
        know_find(tbl.update(i, e), n2, v2) == (if n2 == e.0@ && v2 == e.1 {
            Some(e.2)
        } else {
            know_find(tbl, n2, v2)
        }),
    decreases i,
{
    let upd = tbl.update(i, e);
    if i == 0 {
        assert(upd[0] == e);
        if !(n2 == e.0@ && v2 == e.1) {
            assert(upd.drop_first() =~= tbl.drop_first());
        }
    } else {
        assert(upd[0] == tbl[0]);
        assert(upd.drop_first() =~= tbl.drop_first().update(i - 1, e));
        assert forall|k: int| 0 <= k < i - 1 implies !(tbl.drop_first()[k].0@ == e.0@
            && tbl.drop_first()[k].1 == e.1) by {
            assert(!(tbl[k + 1].0@ == e.0@ && tbl[k + 1].1 == e.1));
        }
        lemma_know_find_update(tbl.drop_first(), i - 1, e, n2, v2);
        if n2 == e.0@ && v2 == e.1 {
            assert(!(tbl[0].0@ == n2 && tbl[0].1 == v2));
        }
    }
}

proof fn lemma_know_find_push(
    tbl: Seq<(NodeId, u64, Knowledge)>,
    e: (NodeId, u64, Knowledge),
    n2: Seq<char>,
    v2: u64,
)
    requires
        know_find(tbl, e.0@, e.1) is None,
    ensures
        know_find(tbl.push(e), n2, v2) == (if n2 == e.0@ && v2 == e.1 {
            Some(e.2)
        } else {
            know_find(tbl, n2, v2)
        }),
    decreases tbl.len(),
{
    let p = tbl.push(e);
    if tbl.len() == 0 {
        assert(p[0] == e);
        assert(p.drop_first() =~= Seq::empty());
    } else {
        assert(p[0] == tbl[0]);
        assert(p.drop_first() =~= tbl.drop_first().push(e));
        lemma_know_find_push(tbl.drop_first(), e, n2, v2);
    }
}

/// Records what is known about neighbor `n`'s awareness of `v`, overwriting
/// any earlier state for that pair.
fn know_set(tbl: &mut Vec<(NodeId, u64, Knowledge)>, n: &NodeId, v: u64, k: Knowledge)
    ensures
        know_map(final(tbl)@) == know_map(old(tbl)@).insert((n@, v), k),
{
    let ghost tbl0 = old(tbl)@;
    let mut found: Option<usize> = None;
    let mut i: usize = 0;
    while i < tbl.len() && found.is_none()
        invariant
            0 <= i <= tbl.len(),
            tbl@ == tbl0,
            match found {
                Some(j) => j < tbl0.len() && tbl0[j as int].0@ == n@ && tbl0[j as int].1 == v && (forall|
                    q: int,
                |
                    0 <= q < j ==> !(tbl0[q].0@ == n@ && tbl0[q].1 == v)),
                None => forall|q: int| 0 <= q < i ==> !(tbl0[q].0@ == n@ && tbl0[q].1 == v),
            },
        decreases tbl.len() - i, (if found is None { 1int } else { 0int }),
    {
        if tbl[i].0 == *n && tbl[i].1 == v {
            found = Some(i);
        } else {
            i += 1;
        }
    }
    let e = (n.clone(), v, k);
    let ghost ge = e;
    match found {
        Some(j) => {
            tbl[j] = e;
            proof {
                assert forall|n2: Seq<char>, v2: u64| true implies know_find(tbl@, n2, v2) == (
                if n2 == n@ && v2 == v {
                    Some(k)
                } else {
                    know_find(tbl0, n2, v2)
                }) by {
                    lemma_know_find_update(tbl0, j as int, ge, n2, v2);
                }
                assert(know_map(tbl@) =~= know_map(tbl0).insert((n@, v), k));
            }
        },
        None => {
            proof {
                lemma_know_find_skip(tbl0, n@, v, tbl0.len() as int);
                assert(tbl0.skip(tbl0.len() as int) =~= Seq::empty());
            }
            tbl.push(e);
            proof {
                assert forall|n2: Seq<char>, v2: u64| true implies know_find(tbl@, n2, v2) == (
                if n2 == n@ && v2 == v {
                    Some(k)
                } else {
                    know_find(tbl0, n2, v2)
                }) by {
                    lemma_know_find_push(tbl0, ge, n2, v2);
                }
                assert(know_map(tbl@) =~= know_map(tbl0).insert((n@, v), k));
            }
        },
    }
}

proof fn lemma_topo_find_skip(t: Seq<(Seq<char>, Seq<Seq<char>>)>, n: Seq<char>, i: int)
    requires
        0 <= i <= t.len(),
        forall|k: int| 0 <= k < i ==> t[k].0 != n,
    ensures
        topo_find(t, n) == topo_find(t.skip(i), n),
    decreases i,
{
    if i > 0 {
        let tail = t.skip(1);
        assert(t.drop_first() =~= tail);
        assert forall|k: int| 0 <= k < i - 1 implies tail[k].0 != n by {
            assert(t[k + 1].0 != n);
        }
        lemma_topo_find_skip(tail, n, i - 1);
        assert(tail.skip(i - 1) =~= t.skip(i));
    } else {
        assert(t.skip(0) =~= t);
    }
}

/// Looks this node's designated neighbor list up in a topology map.
fn topo_get<'a>(t: &'a Vec<(NodeId, Vec<NodeId>)>, n: &NodeId) -> (r: Option<&'a Vec<NodeId>>)
    ensures
        match r {
            Some(v) => topo_find(topo_v(t@), n@) == Some(ids_v(v@)),
            None => topo_find(topo_v(t@), n@) is None,
        },
{
    let ghost tv = topo_v(t@);
    let mut i: usize = 0;
    while i < t.len()
        invariant
            0 <= i <= t.len(),
            tv == topo_v(t@),
            forall|k: int| 0 <= k < i ==> tv[k].0 != n@,
        decreases t.len() - i,
    {
        if t[i].0 == *n {
            proof {
                lemma_topo_find_skip(tv, n@, i as int);
                assert(tv.skip(i as int)[0] == tv[i as int]);
            }
            return Some(&t[i].1);
        }
        i += 1;
    }
    proof {
        lemma_topo_find_skip(tv, n@, t@.len() as int);
        assert(tv.skip(t@.len() as int) =~= Seq::empty());
    }
    None
}

proof fn lemma_seen_plus_snoc(seen: Seq<u64>, news: Seq<News>, x: News)
    ensures
        seen_plus_news(seen, news.push(x)) == ({
            let s1 = seen_plus_news(seen, news);
            if s1.contains(news_value(x)) {
                s1
            } else {
                s1.push(news_value(x))
            }
        }),
    decreases news.len(),
{
    reveal_with_fuel(seen_plus_news, 2);
    if news.len() == 0 {
        assert(news.push(x)[0] == x);
        assert(news.push(x).drop_first() =~= Seq::empty());
    } else {
        let v = news_value(news[0]);
        let s1 = if seen.contains(v) {
            seen
        } else {
            seen.push(v)
        };
        assert(news.push(x)[0] == news[0]);
        assert(news.push(x).drop_first() =~= news.drop_first().push(x));
        lemma_seen_plus_snoc(s1, news.drop_first(), x);
    }
}

proof fn lemma_know_plus_snoc(
    know: Map<(Seq<char>, u64), Knowledge>,
    sender: Seq<char>,
    news: Seq<News>,
    x: News,
)
    ensures
        know_plus_news(know, sender, news.push(x)) == know_plus_news(know, sender, news).insert(
            (sender, news_value(x)),
            news_knowledge(x),
        ),
    decreases news.len(),
{
    reveal_with_fuel(know_plus_news, 2);
    if news.len() == 0 {
        assert(news.push(x)[0] == x);
        assert(news.push(x).drop_first() =~= Seq::empty());
    } else {
        assert(news.push(x)[0] == news[0]);
        assert(news.push(x).drop_first() =~= news.drop_first().push(x));
        lemma_know_plus_snoc(
            know.insert((sender, news_value(news[0])), news_knowledge(news[0])),
            sender,
            news.drop_first(),
            x,
        );
    }
}

/// The claim, if any, that one seen value contributes to the news for `n`.
pub open spec fn claim_for(
    know: Map<(Seq<char>, u64), Knowledge>,
    n: Seq<char>,
    v: u64,
) -> Seq<News> {
    if !know.dom().contains((n, v)) {
        seq![News::NewValue(v)]
    } else if know[(n, v)] == Knowledge::ToBeConfirmed {
        seq![News::VerifiedValue(v)]
    } else {
        Seq::empty()
    }
}

proof fn lemma_news_for_snoc(
    seen: Seq<u64>,
    know: Map<(Seq<char>, u64), Knowledge>,
    n: Seq<char>,
    v: u64,
)
    ensures
        news_for(seen.push(v), know, n) == news_for(seen, know, n) + claim_for(know, n, v),
    decreases seen.len(),
{
    reveal_with_fuel(news_for, 2);
    if seen.len() == 0 {
        assert(seen.push(v)[0] == v);
        assert(seen.push(v).drop_first() =~= Seq::empty());
        assert(news_for(seen.push(v), know, n) =~= news_for(seen, know, n) + claim_for(know, n, v));
    } else {
        assert(seen.push(v)[0] == seen[0]);
        assert(seen.push(v).drop_first() =~= seen.drop_first().push(v));
        lemma_news_for_snoc(seen.drop_first(), know, n, v);
        assert(news_for(seen.push(v), know, n) =~= news_for(seen, know, n) + claim_for(know, n, v));
    }
}

proof fn lemma_tick_snoc(
    node: Seq<char>,
    neighbors: Seq<Seq<char>>,
    seen: Seq<u64>,
    know: Map<(Seq<char>, u64), Knowledge>,
    next_id: int,
    n: Seq<char>,
)
    ensures
        tick_msgs(node, neighbors.push(n), seen, know, next_id) == ({
            let prev = tick_msgs(node, neighbors, seen, know, next_id);
            let ns = news_for(seen, know, n);
            if ns.len() == 0 {
                prev
            } else {
                prev.push(
                    MsgV {
                        src: node,
                        dst: n,
                        msg_id: Some((next_id + prev.len()) as u64),
                        in_reply_to: None,
                        payload: ResponseV::Gossip { news: ns },
                    },
                )
            }
        }),
    decreases neighbors.len(),
{
    reveal_with_fuel(tick_msgs, 2);
    let ns = news_for(seen, know, n);
    if neighbors.len() == 0 {
        assert(neighbors.push(n)[0] == n);
        assert(neighbors.push(n).drop_first() =~= Seq::empty());
        if ns.len() != 0 {
            assert(tick_msgs(node, neighbors.push(n), seen, know, next_id) =~= tick_msgs(
                node,
                neighbors,
                seen,
                know,
                next_id,
            ).push(
                MsgV {
                    src: node,
                    dst: n,
                    msg_id: Some(next_id as u64),
                    in_reply_to: None,
                    payload: ResponseV::Gossip { news: ns },
                },
            ));
        }
    } else {
        assert(neighbors.push(n)[0] == neighbors[0]);
        assert(neighbors.push(n).drop_first() =~= neighbors.drop_first().push(n));
        let ns0 = news_for(seen, know, neighbors[0]);
        if ns0.len() == 0 {
            lemma_tick_snoc(node, neighbors.drop_first(), seen, know, next_id, n);
        } else {
            lemma_tick_snoc(node, neighbors.drop_first(), seen, know, next_id + 1, n);
            let prev = tick_msgs(node, neighbors, seen, know, next_id);
            if ns.len() != 0 {
                assert(tick_msgs(node, neighbors.push(n), seen, know, next_id) =~= prev.push(
                    MsgV {
                        src: node,
                        dst: n,
                        msg_id: Some((next_id + prev.len()) as u64),
                        in_reply_to: None,
                        payload: ResponseV::Gossip { news: ns },
                    },
                ));
            }
        }
    }
}

impl BroadcastNode {
    /// A fresh engine: all peers are initial gossip neighbors, nothing seen,
    /// nothing known about anyone, first outbound id is one.
    pub fn new(init: Init) -> (r: BroadcastNode)
        ensures
            r@.node_id == init@.node_id,
            r@.neighbors == init@.node_ids,
            r@.msg_seq == 1,
            r@.seen == Seq::<u64>::empty(),
            r@.know == Map::<(Seq<char>, u64), Knowledge>::empty(),
            r@.wf(),
    {
        match init {
            Init::Init { node_id, node_ids } => {
                let r = BroadcastNode {
                    node_id,
                    neighbors: node_ids,
                    msg_seq: MsgId::one(),
                    seen: Vec::new(),
                    knowledge: Vec::new(),
                };
                proof {
                    assert(know_map(r.knowledge@) =~= Map::<(Seq<char>, u64), Knowledge>::empty());
                }
                r
            },
        }
    }

    /// The claims worth sending to neighbor `n` right now.
    fn collect_news(&self, n: &NodeId) -> (r: Vec<News>)
        ensures
            r@ == news_for(self@.seen, self@.know, n@),
    {
        let mut r: Vec<News> = Vec::new();
        let mut j: usize = 0;
        while j < self.seen.len()
            invariant
                0 <= j <= self.seen.len(),
                r@ == news_for(self@.seen.take(j as int), self@.know, n@),
            decreases self.seen.len() - j,
        {
            let v = self.seen[j];
            match know_get(&self.knowledge, n, v) {
                None => {
                    r.push(News::NewValue(v));
                },
                Some(Knowledge::ToBeConfirmed) => {
                    r.push(News::VerifiedValue(v));
                },
                Some(Knowledge::Confirmed) => {},
            }
            proof {
                assert(self@.seen.take(j as int).push(self@.seen[j as int]) =~= self@.seen.take(
                    j + 1,
                ));
                lemma_news_for_snoc(
                    self@.seen.take(j as int),
                    self@.know,
                    n@,
                    self@.seen[j as int],
                );
                assert(r@ =~= news_for(self@.seen.take(j + 1), self@.know, n@));
            }
            j += 1;
        }
        proof {
            assert(self@.seen.take(self@.seen.len() as int) =~= self@.seen);
        }
        r
    }

    /// What this node knows about neighbor `n`'s awareness of value `v`.
    pub fn knowledge_of(&self, n: &NodeId, v: u64) -> (r: Option<Knowledge>)
        ensures
            match r {
                Some(k) => self@.know.dom().contains((n@, v)) && self@.know[(n@, v)] == k,
                None => !self@.know.dom().contains((n@, v)),
            },
    {
        know_get(&self.knowledge, n, v)
    }

    /// Whether the outbound counter has room for everything one event could
    /// mint; callers check this before each step.
    pub fn can_step(&self) -> (r: bool)
        ensures
            r == (self@.msg_seq + self@.neighbors.len() + 1 <= u64::MAX),
    {
        let avail = u64::MAX - self.msg_seq.as_u64();
        let len = self.neighbors.len() as u64;
        len < avail
    }

    /// Consumes one event and returns the messages to send, as the transition
    /// relation `bcast_step` prescribes.
    pub fn step(&mut self, action: Action) -> (out: Vec<Message<ResponseMessages>>)
        requires
            old(self)@.wf(),
            old(self)@.msg_seq + old(self)@.neighbors.len() + 1 <= u64::MAX,
        ensures
            final(self)@.wf(),
            bcast_step(old(self)@, action@, final(self)@, msgs_v(out@)),
    {
        let ghost pre = self@;
        let mut out: Vec<Message<ResponseMessages>> = Vec::new();
        match action {
            Action::Msg(m) => {
                match m.payload() {
                    RequestMessages::Broadcast { message } => {
                        let v = *message;
                        if !seen_contains(&self.seen, v) {
                            self.seen.push(v);
                        }
                        let id = self.msg_seq.mint();
                        out.push(m.respond(Some(id), ResponseMessages::BroadcastOk {}));
                        proof {
                            assert(msgs_v(out@) =~= seq![
                                reply_to(m@, pre.msg_seq, ResponseV::BroadcastOk),
                            ]);
                        }
                    },
                    RequestMessages::Read {} => {
                        let vals = clone_values(&self.seen);
                        let id = self.msg_seq.mint();
                        out.push(m.respond(Some(id), ResponseMessages::ReadOk { messages: vals }));
                        proof {
                            assert(msgs_v(out@) =~= seq![
                                reply_to(m@, pre.msg_seq, ResponseV::ReadOk { messages: pre.seen }),
                            ]);
                        }
                    },
                    RequestMessages::Topology { topology } => {
                        match topo_get(topology, &self.node_id) {
                            Some(ns) => {
                                self.neighbors = clone_ids(ns);
                            },
                            None => {},
                        }
                        let id = self.msg_seq.mint();
                        out.push(m.respond(Some(id), ResponseMessages::TopologyOk {}));
                        proof {
                            assert(msgs_v(out@) =~= seq![
                                reply_to(m@, pre.msg_seq, ResponseV::TopologyOk),
                            ]);
                        }
                    },
                    RequestMessages::Gossip { news } => {
                        let sender = m.src().clone();
                        let ghost news0 = news@;
                        let mut j: usize = 0;
                        while j < news.len()
                            invariant
                                0 <= j <= news.len(),
                                news@ == news0,
                                sender@ == m@.src,
                                self@.node_id == pre.node_id,
                                self@.neighbors == pre.neighbors,
                                self@.msg_seq == pre.msg_seq,
                                self@.seen == seen_plus_news(pre.seen, news0.take(j as int)),
                                self@.know == know_plus_news(
                                    pre.know,
                                    sender@,
                                    news0.take(j as int),
                                ),
                                self@.wf(),
                            decreases news.len() - j,
                        {
                            let item = news[j];
                            let (v, kk) = match item {
                                News::NewValue(v) => (v, Knowledge::ToBeConfirmed),
                                News::VerifiedValue(v) => (v, Knowledge::Confirmed),
                            };
                            if !seen_contains(&self.seen, v) {
                                self.seen.push(v);
                            }
                            know_set(&mut self.knowledge, &sender, v, kk);
                            proof {
                                assert(news0.take(j as int).push(news0[j as int]) =~= news0.take(
                                    j + 1,
                                ));
                                lemma_seen_plus_snoc(pre.seen, news0.take(j as int), news0[j as int]);
                                lemma_know_plus_snoc(
                                    pre.know,
                                    sender@,
                                    news0.take(j as int),
                                    news0[j as int],
                                );
                            }
                            j += 1;
                        }
                        proof {
                            assert(news0.take(news0.len() as int) =~= news0);
                            assert(msgs_v(out@) =~= Seq::<MsgV<ResponseV>>::empty());
                        }
                    },
                }
            },
            Action::Gossip => {
                let n_count = self.neighbors.len();
                let mut i: usize = 0;
                while i < n_count
                    invariant
                        0 <= i <= n_count,
                        n_count == pre.neighbors.len(),
                        self@.node_id == pre.node_id,
                        self@.neighbors == pre.neighbors,
                        self@.seen == pre.seen,
                        self@.know == pre.know,
                        self@.wf(),
                        msgs_v(out@) == tick_msgs(
                            pre.node_id,
                            pre.neighbors.take(i as int),
                            pre.seen,
                            pre.know,
                            pre.msg_seq as int,
                        ),
                        out@.len() <= i,
                        self@.msg_seq == pre.msg_seq + out@.len(),
                        pre.msg_seq + pre.neighbors.len() + 1 <= u64::MAX,
                    decreases n_count - i,
                {
                    let neighbor = self.neighbors[i].clone();
                    let news = self.collect_news(&neighbor);
                    proof {
                        assert(pre.neighbors.take(i as int).push(pre.neighbors[i as int])
                            =~= pre.neighbors.take(i + 1));
                        lemma_tick_snoc(
                            pre.node_id,
                            pre.neighbors.take(i as int),
                            pre.seen,
                            pre.know,
                            pre.msg_seq as int,
                            pre.neighbors[i as int],
                        );
                    }
                    if news.len() > 0 {
                        let id = self.msg_seq.mint();
                        let msg = Message::new(
                            self.node_id.clone(),
                            neighbor,
                            Some(id),
                            ResponseMessages::Gossip { news },
                        );
                        out.push(msg);
                        proof {
                            assert(msgs_v(out@) =~= tick_msgs(
                                pre.node_id,
                                pre.neighbors.take(i + 1),
                                pre.seen,
                                pre.know,
                                pre.msg_seq as int,
                            ));
                        }
                    }
                    i += 1;
                }
                proof {
                    assert(pre.neighbors.take(pre.neighbors.len() as int) =~= pre.neighbors);
                }
            },
        }
        out
    }
}

proof fn lemma_tick_ids(
    node: Seq<char>,
    neighbors: Seq<Seq<char>>,
    seen: Seq<u64>,
    know: Map<(Seq<char>, u64), Knowledge>,
    next_id: int,
)
    ensures
        tick_msgs(node, neighbors, seen, know, next_id).len() <= neighbors.len(),
        forall|i: int|
            0 <= i < tick_msgs(node, neighbors, seen, know, next_id).len()
                ==> #[trigger] tick_msgs(node, neighbors, seen, know, next_id)[i].msg_id == Some(
                (next_id + i) as u64,
            ),
    decreases neighbors.len(),
{
    if neighbors.len() > 0 {
        let ns = news_for(seen, know, neighbors[0]);
        if ns.len() == 0 {
            lemma_tick_ids(node, neighbors.drop_first(), seen, know, next_id);
        } else {
            lemma_tick_ids(node, neighbors.drop_first(), seen, know, next_id + 1);
        }
    }
}

/// Successive outbound ids strictly increase by one: every step advances the
/// counter by exactly the number of messages it sent, and stamps them with
/// consecutive ids starting at the counter's old value.
pub proof fn lemma_message_id_monotonicity(
    pre: BroadcastV,
    a: ActionV,
    post: BroadcastV,
    out: Seq<MsgV<ResponseV>>,
)
    requires
        bcast_step(pre, a, post, out),
    ensures
        post.msg_seq == pre.msg_seq + out.len(),
        forall|i: int|
            0 <= i < out.len() ==> (#[trigger] out[i]).msg_id == Some((pre.msg_seq + i) as u64),
{
    match a {
        ActionV::Msg(m) => {
        },
        ActionV::Gossip => {
            lemma_tick_ids(pre.node_id, pre.neighbors, pre.seen, pre.know, pre.msg_seq as int);
        },
    }
}

proof fn lemma_know_plus_preserves(
    know: Map<(Seq<char>, u64), Knowledge>,
    sender: Seq<char>,
    news: Seq<News>,
    n: Seq<char>,
    v: u64,
)
    requires
        news.contains(News::NewValue(v)) ==> sender != n,
    ensures
        know.dom().contains((n, v)) ==> know_plus_news(know, sender, news).dom().contains((n, v)),
        (know.dom().contains((n, v)) && know[(n, v)] == Knowledge::Confirmed) ==> know_plus_news(
            know,
            sender,
            news,
        )[(n, v)] == Knowledge::Confirmed,
    decreases news.len(),
{
    if news.len() > 0 {
        assert(news.contains(news[0]));
        let k1 = know.insert((sender, news_value(news[0])), news_knowledge(news[0]));
        assert forall|x: News| news.drop_first().contains(x) implies news.contains(x) by {
            let w = choose|w: int| 0 <= w < news.drop_first().len() && news.drop_first()[w] == x;
            assert(news[w + 1] == x);
        }
        lemma_know_plus_preserves(k1, sender, news.drop_first(), n, v);
    }
}

proof fn lemma_know_plus_dom(
    know: Map<(Seq<char>, u64), Knowledge>,
    sender: Seq<char>,
    news: Seq<News>,
    k: (Seq<char>, u64),
)
    requires
        know.dom().contains(k),
    ensures
        know_plus_news(know, sender, news).dom().contains(k),
    decreases news.len(),
{
    if news.len() > 0 {
        lemma_know_plus_dom(
            know.insert((sender, news_value(news[0])), news_knowledge(news[0])),
            sender,
            news.drop_first(),
            k,
        );
    }
}

/// Knowledge is never forgotten: an entry of the knowledge table survives
/// every event whatsoever.
pub proof fn lemma_knowledge_never_forgotten(
    pre: BroadcastV,
    a: ActionV,
    post: BroadcastV,
    out: Seq<MsgV<ResponseV>>,
    n: Seq<char>,
    v: u64,
)
    requires
        bcast_step(pre, a, post, out),
        pre.know.dom().contains((n, v)),
    ensures
        post.know.dom().contains((n, v)),
{
    match a {
        ActionV::Msg(m) => match m.payload {
            RequestV::Gossip { news } => {
                lemma_know_plus_dom(pre.know, m.src, news, (n, v));
            },
            _ => {
            },
        },
        ActionV::Gossip => {
        },
    }
}

/// A Confirmed pair stays Confirmed under every event but one: an inbound
/// gossip message in which that very neighbor claims the value as new again.
pub proof fn lemma_knowledge_monotonicity(
    pre: BroadcastV,
    a: ActionV,
    post: BroadcastV,
    out: Seq<MsgV<ResponseV>>,
    n: Seq<char>,
    v: u64,
)
    requires
        bcast_step(pre, a, post, out),
        (match a {
            ActionV::Msg(m) => match m.payload {
                RequestV::Gossip { news } => news.contains(News::NewValue(v)) ==> m.src != n,
                _ => true,
            },
            ActionV::Gossip => true,
        }),
    ensures
        (pre.know.dom().contains((n, v)) && pre.know[(n, v)] == Knowledge::Confirmed)
            ==> post.know.dom().contains((n, v)) && post.know[(n, v)] == Knowledge::Confirmed,
{
    match a {
        ActionV::Msg(m) => match m.payload {
            RequestV::Gossip { news } => {
                lemma_know_plus_preserves(pre.know, m.src, news, n, v);
            },
            _ => {
            },
        },
        ActionV::Gossip => {
        },
    }
}

proof fn lemma_news_for_confirmed(
    seen: Seq<u64>,
    know: Map<(Seq<char>, u64), Knowledge>,
    n: Seq<char>,
)
    requires
        forall|i: int|
            0 <= i < seen.len() ==> know.dom().contains((n, #[trigger] seen[i])) && know[(
                n,
                seen[i],
            )] == Knowledge::Confirmed,
    ensures
        news_for(seen, know, n).len() == 0,
    decreases seen.len(),
{
    if seen.len() > 0 {
        assert(know.dom().contains((n, seen[0])));
        assert forall|i: int| 0 <= i < seen.drop_first().len() implies know.dom().contains(
            (n, #[trigger] seen.drop_first()[i]),
        ) && know[(n, seen.drop_first()[i])] == Knowledge::Confirmed by {
            assert(seen.drop_first()[i] == seen[i + 1]);
        }
        lemma_news_for_confirmed(seen.drop_first(), know, n);
    }
}

proof fn lemma_tick_confirmed(
    node: Seq<char>,
    neighbors: Seq<Seq<char>>,
    seen: Seq<u64>,
    know: Map<(Seq<char>, u64), Knowledge>,
    next_id: int,
)
    requires
        forall|k: int, i: int|
            0 <= k < neighbors.len() && 0 <= i < seen.len() ==> know.dom().contains(
                (#[trigger] neighbors[k], #[trigger] seen[i]),
            ) && know[(neighbors[k], seen[i])] == Knowledge::Confirmed,
    ensures
        tick_msgs(node, neighbors, seen, know, next_id).len() == 0,
    decreases neighbors.len(),
{
    if neighbors.len() > 0 {
        assert forall|i: int| 0 <= i < seen.len() implies know.dom().contains(
            (neighbors[0], #[trigger] seen[i]),
        ) && know[(neighbors[0], seen[i])] == Knowledge::Confirmed by {
            assert(know.dom().contains((neighbors[0], seen[i])));
        }
        lemma_news_for_confirmed(seen, know, neighbors[0]);
        assert forall|k: int, i: int|
            0 <= k < neighbors.drop_first().len() && 0 <= i < seen.len() implies know.dom().contains(
            (#[trigger] neighbors.drop_first()[k], #[trigger] seen[i]),
        ) && know[(neighbors.drop_first()[k], seen[i])] == Knowledge::Confirmed by {
            assert(neighbors.drop_first()[k] == neighbors[k + 1]);
        }
        lemma_tick_confirmed(node, neighbors.drop_first(), seen, know, next_id);
    }
}

/// Anti-entropy minimality: in steady state, when every neighbor is Confirmed
/// for every seen value, a tick sends nothing at all and changes nothing.
pub proof fn lemma_anti_entropy_minimality(
    pre: BroadcastV,
    post: BroadcastV,
    out: Seq<MsgV<ResponseV>>,
)
    requires
        bcast_step(pre, ActionV::Gossip, post, out),
        forall|n: Seq<char>, v: u64|
            #[trigger] pre.neighbors.contains(n) && #[trigger] pre.seen.contains(v)
                ==> pre.know.dom().contains((n, v)) && pre.know[(n, v)] == Knowledge::Confirmed,
    ensures
        out.len() == 0,
        post.msg_seq == pre.msg_seq,
        post.seen == pre.seen,
        post.know == pre.know,
{
    assert forall|k: int, i: int|
        0 <= k < pre.neighbors.len() && 0 <= i < pre.seen.len() implies pre.know.dom().contains(
        (#[trigger] pre.neighbors[k], #[trigger] pre.seen[i]),
    ) && pre.know[(pre.neighbors[k], pre.seen[i])] == Knowledge::Confirmed by {
        assert(pre.neighbors.contains(pre.neighbors[k]));
        assert(pre.seen.contains(pre.seen[i]));
    }
    lemma_tick_confirmed(pre.node_id, pre.neighbors, pre.seen, pre.know, pre.msg_seq as int);
}

proof fn lemma_seen_plus_contains(seen: Seq<u64>, news: Seq<News>, v: u64)
    requires
        seen.contains(v),
    ensures
        seen_plus_news(seen, news).contains(v),
    decreases news.len(),
{
    if news.len() > 0 {
        let x = news_value(news[0]);
        let s1 = if seen.contains(x) {
            seen
        } else {
            seen.push(x)
        };
        if !seen.contains(x) {
            let w = choose|w: int| 0 <= w < seen.len() && seen[w] == v;
            assert(seen.push(x)[w] == v);
        }
        lemma_seen_plus_contains(s1, news.drop_first(), v);
    }
}

/// Nothing ever leaves the seen set: every step keeps every seen value.
pub proof fn lemma_seen_monotone(
    pre: BroadcastV,
    a: ActionV,
    post: BroadcastV,
    out: Seq<MsgV<ResponseV>>,
    v: u64,
)
    requires
        bcast_step(pre, a, post, out),
        pre.seen.contains(v),
    ensures
        post.seen.contains(v),
{
    match a {
        ActionV::Msg(m) => match m.payload {
            RequestV::Broadcast { message } => {
                if !pre.seen.contains(message) {
                    let w = choose|w: int| 0 <= w < pre.seen.len() && pre.seen[w] == v;
                    assert(pre.seen.push(message)[w] == v);
                }
            },
            RequestV::Gossip { news } => {
                lemma_seen_plus_contains(pre.seen, news, v);
            },
            _ => {
            },
        },
        ActionV::Gossip => {
        },
    }
}

proof fn lemma_seen_plus_absorbs(seen: Seq<u64>, news: Seq<News>, i: int)
    requires
        0 <= i < news.len(),
    ensures
        seen_plus_news(seen, news).contains(news_value(news[i])),
    decreases news.len(),
{
    let v = news_value(news[0]);
    let s1 = if seen.contains(v) {
        seen
    } else {
        seen.push(v)
    };
    if i == 0 {
        if seen.contains(v) {
            lemma_seen_plus_contains(seen, news.drop_first(), v);
        } else {
            assert(seen.push(v)[seen.len() as int] == v);
            lemma_seen_plus_contains(s1, news.drop_first(), v);
        }
    } else {
        lemma_seen_plus_absorbs(s1, news.drop_first(), i - 1);
        assert(news.drop_first()[i - 1] == news[i]);
    }
}

/// Every gossiped value is absorbed: after an inbound gossip message, each
/// value it claimed is in the seen set.
pub proof fn lemma_gossip_absorbed(
    pre: BroadcastV,
    m: MsgV<RequestV>,
    post: BroadcastV,
    out: Seq<MsgV<ResponseV>>,
    i: int,
)
    requires
        bcast_step(pre, ActionV::Msg(m), post, out),
        m.payload matches RequestV::Gossip { news } && 0 <= i < news.len(),
    ensures
        (match m.payload {
            RequestV::Gossip { news } => post.seen.contains(news_value(news[i])),
            _ => true,
        }),
{
    match m.payload {
        RequestV::Gossip { news } => {
            lemma_seen_plus_absorbs(pre.seen, news, i);
        },
        _ => {
        },
    }
}

/// The tick holds nothing back: the news computed for a neighbor carries a
/// claim of every seen value that is not yet Confirmed for that neighbor.
pub proof fn lemma_news_for_complete(
    seen: Seq<u64>,
    know: Map<(Seq<char>, u64), Knowledge>,
    n: Seq<char>,
    i: int,
)
    requires
        0 <= i < seen.len(),
        !(know.dom().contains((n, seen[i])) && know[(n, seen[i])] == Knowledge::Confirmed),
    ensures
        exists|j: int|
            0 <= j < news_for(seen, know, n).len() && news_value(
                #[trigger] news_for(seen, know, n)[j],
            ) == seen[i],
    decreases seen.len(),
{
    let v = seen[0];
    let rest = news_for(seen.drop_first(), know, n);
    let whole = news_for(seen, know, n);
    if i == 0 {
        assert(whole[0] == (claim_for(know, n, v) + rest)[0]);
        assert(news_value(whole[0]) == v);
    } else {
        lemma_news_for_complete(seen.drop_first(), know, n, i - 1);
        let j = choose|j: int|
            0 <= j < rest.len() && news_value(#[trigger] rest[j]) == seen.drop_first()[i - 1];
        let head = claim_for(know, n, v);
        assert(whole =~= head + rest);
        assert(whole[j + head.len()] == rest[j]);
        assert(news_value(whole[j + head.len()]) == seen[i]);
    }
}

/// The two-phase handshake, seen from one node: a neighbor's fresh claim of
/// a value leaves the pair ToBeConfirmed, its confirming claim settles the
/// pair at Confirmed, and while a pair is ToBeConfirmed the next tick's news
/// for that neighbor carries the confirming claim back.
pub proof fn lemma_handshake(
    know: Map<(Seq<char>, u64), Knowledge>,
    seen: Seq<u64>,
    n: Seq<char>,
    v: u64,
)
    ensures
        know_plus_news(know, n, seq![News::NewValue(v)]) == know.insert(
            (n, v),
            Knowledge::ToBeConfirmed,
        ),
        know_plus_news(know, n, seq![News::VerifiedValue(v)]) == know.insert(
            (n, v),
            Knowledge::Confirmed,
        ),
        (seen.contains(v) && know.dom().contains((n, v)) && know[(n, v)]
            == Knowledge::ToBeConfirmed) ==> news_for(seen, know, n).contains(
            News::VerifiedValue(v),
        ),
{
    reveal_with_fuel(know_plus_news, 2);
    assert(seq![News::NewValue(v)].drop_first() =~= Seq::<News>::empty());
    assert(seq![News::VerifiedValue(v)].drop_first() =~= Seq::<News>::empty());
    if seen.contains(v) && know.dom().contains((n, v)) && know[(n, v)]
        == Knowledge::ToBeConfirmed {
        let i = choose|i: int| 0 <= i < seen.len() && seen[i] == v;
        lemma_news_for_claimed(seen, know, n, i);
    }
}

proof fn lemma_news_for_claimed(
    seen: Seq<u64>,
    know: Map<(Seq<char>, u64), Knowledge>,
    n: Seq<char>,
    i: int,
)
    requires
        0 <= i < seen.len(),
        know.dom().contains((n, seen[i])),
        know[(n, seen[i])] == Knowledge::ToBeConfirmed,
    ensures
        news_for(seen, know, n).contains(News::VerifiedValue(seen[i])),
    decreases seen.len(),
{
    let v = seen[0];
    let rest = news_for(seen.drop_first(), know, n);
    let whole = news_for(seen, know, n);
    if i == 0 {
        assert(whole[0] == (seq![News::VerifiedValue(v)] + rest)[0]);
    } else {
        lemma_news_for_claimed(seen.drop_first(), know, n, i - 1);
        let j = choose|j: int|
            0 <= j < rest.len() && rest[j] == News::VerifiedValue(seen.drop_first()[i - 1]);
        let head = claim_for(know, n, v);
        assert(whole =~= head + rest);
        assert(whole[j + head.len()] == rest[j]);
    }
}

/// Whether this event is a broadcast request delivering value `v`.
pub open spec fn is_broadcast_of(a: ActionV, v: u64) -> bool {
    match a {
        ActionV::Msg(m) => m.payload == (RequestV::Broadcast { message: v }),
        ActionV::Gossip => false,
    }
}

/// Whether this event is a read request.
pub open spec fn is_read(a: ActionV) -> bool {
    match a {
        ActionV::Msg(m) => m.payload is Read,
        ActionV::Gossip => false,
    }
}

/// Whether a step's output is one read reply whose value list carries `v`.
pub open spec fn read_reply_contains(out: Seq<MsgV<ResponseV>>, v: u64) -> bool {
    out.len() == 1 && match out[0].payload {
        ResponseV::ReadOk { messages } => messages.contains(v),
        _ => false,
    }
}

/// Local durability: once a broadcast request delivers `v`, every later state
/// still holds `v`, and every later read replies with a list carrying `v`.
/// The trace is any run of the engine: consecutive states joined by steps.
pub proof fn lemma_add_then_read(
    states: Seq<BroadcastV>,
    acts: Seq<ActionV>,
    outs: Seq<Seq<MsgV<ResponseV>>>,
    v: u64,
    i: int,
    j: int,
)
    requires
        states.len() == acts.len() + 1,
        outs.len() == acts.len(),
        forall|k: int|
            0 <= k < acts.len() ==> #[trigger] bcast_step(states[k], acts[k], states[k + 1], outs[k]),
        0 <= i <= j < acts.len(),
        is_broadcast_of(acts[i], v),
    ensures
        states[j + 1].seen.contains(v),
        is_read(acts[j]) ==> read_reply_contains(outs[j], v),
    decreases j - i,
{
    if j == i {
        assert(bcast_step(states[i], acts[i], states[i + 1], outs[i]));
        match acts[i] {
            ActionV::Msg(m) => {
                if !states[i].seen.contains(v) {
                    assert(states[i + 1].seen == states[i].seen.push(v));
                    assert(states[i + 1].seen[states[i].seen.len() as int] == v);
                }
            },
            ActionV::Gossip => {
            },
        }
    } else {
        lemma_add_then_read(states, acts, outs, v, i, j - 1);
        assert(bcast_step(states[j], acts[j], states[j + 1], outs[j]));
        lemma_seen_monotone(states[j], acts[j], states[j + 1], outs[j], v);
        if is_read(acts[j]) {
            assert(states[j].seen.contains(v));
        }
    }
}

/// Whether `v` is already among the seen values.
fn seen_contains(seen: &Vec<u64>, v: u64) -> (r: bool)
    ensures
        r == seen@.contains(v),
{
    let mut i: usize = 0;
    while i < seen.len()
        invariant
            0 <= i <= seen.len(),
            forall|k: int| 0 <= k < i ==> seen@[k] != v,
        decreases seen.len() - i,
    {
        if seen[i] == v {
            return true;
        }
        i += 1;
    }
    false
}

/// A copy of the seen values, for a read response.
fn clone_values(seen: &Vec<u64>) -> (r: Vec<u64>)
    ensures
        r@ == seen@,
{
    let mut r: Vec<u64> = Vec::new();
    let mut i: usize = 0;
    while i < seen.len()
        invariant
            0 <= i <= seen.len(),
            r@ == seen@.take(i as int),
        decreases seen.len() - i,
    {
        r.push(seen[i]);
        proof {
            assert(seen@.take(i as int).push(seen@[i as int]) =~= seen@.take(i + 1));
        }
        i += 1;
    }
    proof {
        assert(seen@.take(seen@.len() as int) =~= seen@);
    }
    r
}

/// A copy of a neighbor list.
fn clone_ids(ids: &Vec<NodeId>) -> (r: Vec<NodeId>)
    ensures
        r@ == ids@,
{
    let mut r: Vec<NodeId> = Vec::new();
    let mut i: usize = 0;
    while i < ids.len()
        invariant
            0 <= i <= ids.len(),
            r@ == ids@.take(i as int),
        decreases ids.len() - i,
    {
        r.push(ids[i].clone());
        proof {
            assert(ids@.take(i as int).push(ids@[i as int]) =~= ids@.take(i + 1));
        }
        i += 1;
    }
    proof {
        assert(ids@.take(ids@.len() as int) =~= ids@);
    }
    r
}

/// The tree one gossip claim rides as: one field naming the claim kind.
pub open spec fn news_jv(x: News) -> Jv {
    match x {
        News::NewValue(v) => Jv::Obj(seq![("NewValue"@, Jv::Int(v))]),
        News::VerifiedValue(v) => Jv::Obj(seq![("VerifiedValue"@, Jv::Int(v))]),
    }
}

/// The trees a list of claims rides as.
pub open spec fn news_list_jv(s: Seq<News>) -> Seq<Jv> {
    Seq::new(s.len(), |i: int| news_jv(s[i]))
}

/// The claim, if any, that one tree decodes to.
pub open spec fn news_of_jv(j: Jv) -> Option<News> {
    match j {
        Jv::Obj(fs) => if fs.len() == 1 {
            if fs[0].0 == "NewValue"@ {
                match fs[0].1 {
                    Jv::Int(v) => Some(News::NewValue(v)),
                    _ => None,
                }
            } else if fs[0].0 == "VerifiedValue"@ {
                match fs[0].1 {
                    Jv::Int(v) => Some(News::VerifiedValue(v)),
                    _ => None,
                }
            } else {
                None
            }
        } else {
            None
        },
        _ => None,
    }
}

/// The claims, if any, that a list of trees decodes to.
pub open spec fn news_list_of(s: Seq<Jv>) -> Option<Seq<News>>
    decreases s.len(),
{
    if s.len() == 0 {
        Some(Seq::empty())
    } else {
        match news_of_jv(s[0]) {
            Some(x) => match news_list_of(s.drop_first()) {
                Some(rest) => Some(seq![x] + rest),
                None => None,
            },
            None => None,
        }
    }
}

proof fn lemma_news_list_of_snoc(s: Seq<Jv>, x: Jv)
    ensures
        news_list_of(s.push(x)) == (match (news_list_of(s), news_of_jv(x)) {
            (Some(rest), Some(n)) => Some(rest.push(n)),
            _ => None::<Seq<News>>,
        }),
    decreases s.len(),
{
    reveal_with_fuel(news_list_of, 2);
    if s.len() == 0 {
        assert(s.push(x)[0] == x);
        assert(s.push(x).drop_first() =~= Seq::empty());
        match news_of_jv(x) {
            Some(n) => {
                assert(news_list_of(s.push(x))->Some_0 =~= news_list_of(s)->Some_0.push(n));
            },
            None => {
            },
        }
    } else {
        assert(s.push(x)[0] == s[0]);
        assert(s.push(x).drop_first() =~= s.drop_first().push(x));
        lemma_news_list_of_snoc(s.drop_first(), x);
        match (news_list_of(s), news_of_jv(x)) {
            (Some(rest), Some(n)) => {
                assert(news_list_of(s.push(x))->Some_0 =~= rest.push(n));
            },
            _ => {
            },
        }
    }
}

proof fn lemma_news_list_of_prefix_none(s: Seq<Jv>, i: int)
    requires
        0 <= i <= s.len(),
        news_list_of(s.take(i)) is None,
    ensures
        news_list_of(s) is None,
    decreases s.len() - i,
{
    if i < s.len() {
        assert(s.take(i).push(s[i]) =~= s.take(i + 1));
        lemma_news_list_of_snoc(s.take(i), s[i]);
        lemma_news_list_of_prefix_none(s, i + 1);
    } else {
        assert(s.take(i) =~= s);
    }
}

/// Encodes one claim as a tree.
fn news_to_json(x: News) -> (r: Json)
    ensures
        r@ == news_jv(x),
{
    let mut fs: Vec<(String, Json)> = Vec::new();
    match x {
        News::NewValue(v) => {
            fs.push((String::from_str("NewValue"), Json::Int(v)));
        },
        News::VerifiedValue(v) => {
            fs.push((String::from_str("VerifiedValue"), Json::Int(v)));
        },
    }
    let r = Json::Obj(fs);
    proof {
        obj_view_fact(r);
        assert(fields_v(r->Obj_0@) =~= news_jv(x)->Obj_0);
    }
    r
}

/// Encodes a list of claims.
fn encode_news(news: &Vec<News>) -> (r: Vec<Json>)
    ensures
        arr_v(r@) == news_list_jv(news@),
{
    let mut r: Vec<Json> = Vec::new();
    let mut i: usize = 0;
    while i < news.len()
        invariant
            0 <= i <= news.len(),
            arr_v(r@) == news_list_jv(news@.take(i as int)),
        decreases news.len() - i,
    {
        let j = news_to_json(news[i]);
        let ghost r0 = r@;
        let ghost jg = j;
        r.push(j);
        proof {
            assert(arr_v(r0).len() == r0.len());
            assert(news_list_jv(news@.take(i as int)).len() == i as int);
            assert(r0.len() == i as int);
            assert forall|k: int| 0 <= k < r@.len() implies arr_v(r@)[k] == news_list_jv(
                news@.take(i + 1),
            )[k] by {
                if k < i {
                    assert(arr_v(r0)[k] == news_list_jv(news@.take(i as int))[k]);
                    assert(r@[k] == r0[k]);
                } else {
                    assert(r@ == r0.push(jg));
                    assert(r@[k] == jg);
                }
            }
            assert(arr_v(r@) =~= news_list_jv(news@.take(i + 1)));
        }
        i += 1;
    }
    proof {
        assert(news@.take(news@.len() as int) =~= news@);
        assert(arr_v(r@) =~= news_list_jv(news@));
    }
    r
}

/// Decodes one claim out of a tree.
fn decode_news_item(j: &Json) -> (r: Option<News>)
    ensures
        r == news_of_jv(j@),
{
    match j {
        Json::Obj(fs) => {
            proof {
                obj_view_fact(*j);
            }
            if fs.len() != 1 {
                return None;
            }
            proof {
                assert(fields_v(fs@)[0] == (fs@[0].0@, fs@[0].1@));
            }
            let v = match &fs[0].1 {
                Json::Int(v) => *v,
                _ => {
                    return None;
                },
            };
            if tag_is(&fs[0].0, "NewValue") {
                Some(News::NewValue(v))
            } else if tag_is(&fs[0].0, "VerifiedValue") {
                Some(News::VerifiedValue(v))
            } else {
                None
            }
        },
        _ => None,
    }
}

/// Decodes a list of claims out of an array of trees.
fn decode_news(xs: &Vec<Json>) -> (r: Option<Vec<News>>)
    ensures
        match r {
            Some(ns) => news_list_of(arr_v(xs@)) == Some(ns@),
            None => news_list_of(arr_v(xs@)) is None,
        },
{
    let mut ns: Vec<News> = Vec::new();
    let mut i: usize = 0;
    while i < xs.len()
        invariant
            0 <= i <= xs.len(),
            news_list_of(arr_v(xs@).take(i as int)) == Some(ns@),
        decreases xs.len() - i,
    {
        let x = match decode_news_item(&xs[i]) {
            Some(x) => x,
            None => {
                proof {
                    assert(arr_v(xs@).take(i as int).push(arr_v(xs@)[i as int]) =~= arr_v(
                        xs@,
                    ).take(i + 1));
                    lemma_news_list_of_snoc(arr_v(xs@).take(i as int), arr_v(xs@)[i as int]);
                    lemma_news_list_of_prefix_none(arr_v(xs@), i + 1);
                }
                return None;
            },
        };
        ns.push(x);
        proof {
            assert(arr_v(xs@).take(i as int).push(arr_v(xs@)[i as int]) =~= arr_v(xs@).take(i + 1));
            lemma_news_list_of_snoc(arr_v(xs@).take(i as int), arr_v(xs@)[i as int]);
            assert(news_list_of(arr_v(xs@).take(i + 1))->Some_0 =~= ns@);
        }
        i += 1;
    }
    proof {
        assert(arr_v(xs@).take(xs@.len() as int) =~= arr_v(xs@));
    }
    Some(ns)
}

/// The topology map, if any, that an object's fields decode to: every value
/// must be an array of node identities.
pub open spec fn topo_of_jv(fs: Seq<(Seq<char>, Jv)>) -> Option<
    Seq<(Seq<char>, Seq<Seq<char>>)>,
>
    decreases fs.len(),
{
    if fs.len() == 0 {
        Some(Seq::empty())
    } else {
        match fs[0].1 {
            Jv::Arr(xs) => match ids_of_jv(xs) {
                Some(ns) => match topo_of_jv(fs.drop_first()) {
                    Some(rest) => Some(seq![(fs[0].0, ns)] + rest),
                    None => None,
                },
                None => None,
            },
            _ => None,
        }
    }
}

proof fn lemma_topo_of_jv_snoc(fs: Seq<(Seq<char>, Jv)>, x: (Seq<char>, Jv))
    ensures
        topo_of_jv(fs.push(x)) == (match (topo_of_jv(fs), x.1) {
            (Some(rest), Jv::Arr(xs)) => match ids_of_jv(xs) {
                Some(ns) => Some(rest.push((x.0, ns))),
                None => None,
            },
            _ => None::<Seq<(Seq<char>, Seq<Seq<char>>)>>,
        }),
    decreases fs.len(),
{
    reveal_with_fuel(topo_of_jv, 2);
    if fs.len() == 0 {
        assert(fs.push(x)[0] == x);
        assert(fs.push(x).drop_first() =~= Seq::empty());
        match x.1 {
            Jv::Arr(xs) => {
                match ids_of_jv(xs) {
                    Some(ns) => {
                        assert(topo_of_jv(fs.push(x))->Some_0 =~= topo_of_jv(fs)->Some_0.push(
                            (x.0, ns),
                        ));
                    },
                    None => {
                    },
                }
            },
            _ => {
            },
        }
    } else {
        assert(fs.push(x)[0] == fs[0]);
        assert(fs.push(x).drop_first() =~= fs.drop_first().push(x));
        lemma_topo_of_jv_snoc(fs.drop_first(), x);
        match (topo_of_jv(fs), x.1) {
            (Some(rest), Jv::Arr(xs)) => {
                match ids_of_jv(xs) {
                    Some(ns) => {
                        assert(topo_of_jv(fs.push(x))->Some_0 =~= rest.push((x.0, ns)));
                    },
                    None => {
                    },
                }
            },
            _ => {
            },
        }
    }
}

proof fn lemma_topo_of_jv_prefix_none(fs: Seq<(Seq<char>, Jv)>, i: int)
    requires
        0 <= i <= fs.len(),
        topo_of_jv(fs.take(i)) is None,
    ensures
        topo_of_jv(fs) is None,
    decreases fs.len() - i,
{
    if i < fs.len() {
        assert(fs.take(i).push(fs[i]) =~= fs.take(i + 1));
        lemma_topo_of_jv_snoc(fs.take(i), fs[i]);
        lemma_topo_of_jv_prefix_none(fs, i + 1);
    } else {
        assert(fs.take(i) =~= fs);
    }
}

/// Decodes a topology map out of an object's fields.
fn decode_topology(fs: &Vec<(String, Json)>) -> (r: Option<Vec<(NodeId, Vec<NodeId>)>>)
    ensures
        match r {
            Some(t) => topo_of_jv(fields_v(fs@)) == Some(topo_v(t@)),
            None => topo_of_jv(fields_v(fs@)) is None,
        },
{
    let mut t: Vec<(NodeId, Vec<NodeId>)> = Vec::new();
    let mut i: usize = 0;
    while i < fs.len()
        invariant
            0 <= i <= fs.len(),
            topo_of_jv(fields_v(fs@).take(i as int)) == Some(topo_v(t@)),
        decreases fs.len() - i,
    {
        proof {
            assert(fields_v(fs@)[i as int] == (fs@[i as int].0@, fs@[i as int].1@));
            assert(fields_v(fs@).take(i as int).push(fields_v(fs@)[i as int]) =~= fields_v(
                fs@,
            ).take(i + 1));
            lemma_topo_of_jv_snoc(fields_v(fs@).take(i as int), fields_v(fs@)[i as int]);
        }
        let ids = match &fs[i].1 {
            Json::Arr(xs) => {
                proof {
                    arr_view_fact(fs@[i as int].1);
                }
                match decode_ids(xs) {
                    Some(ids) => ids,
                    None => {
                        proof {
                            lemma_topo_of_jv_prefix_none(fields_v(fs@), i + 1);
                        }
                        return None;
                    },
                }
            },
            _ => {
                proof {
                    lemma_topo_of_jv_prefix_none(fields_v(fs@), i + 1);
                }
                return None;
            },
        };
        t.push((NodeId::new(fs[i].0.clone()), ids));
        proof {
            assert(topo_of_jv(fields_v(fs@).take(i + 1))->Some_0 =~= topo_v(t@));
        }
        i += 1;
    }
    proof {
        assert(fields_v(fs@).take(fs@.len() as int) =~= fields_v(fs@));
    }
    Some(t)
}

impl JsonDecode for RequestMessages {
    open spec fn spec_decode(fields: Seq<(Seq<char>, Jv)>) -> Option<RequestV> {
        match jv_get(fields, "type"@) {
            Some(Jv::Str(t)) => if t == "broadcast"@ {
                match jv_get(fields, "message"@) {
                    Some(Jv::Int(v)) => Some(RequestV::Broadcast { message: v }),
                    _ => None,
                }
            } else if t == "read"@ {
                Some(RequestV::Read)
            } else if t == "topology"@ {
                match jv_get(fields, "topology"@) {
                    Some(Jv::Obj(fs)) => match topo_of_jv(fs) {
                        Some(tp) => Some(RequestV::Topology { topology: tp }),
                        None => None,
                    },
                    _ => None,
                }
            } else if t == "gossip"@ {
                match jv_get(fields, "news"@) {
                    Some(Jv::Arr(xs)) => match news_list_of(xs) {
                        Some(ns) => Some(RequestV::Gossip { news: ns }),
                        None => None,
                    },
                    _ => None,
                }
            } else {
                None
            },
            _ => None,
        }
    }

    fn decode_fields(fields: &Vec<(String, Json)>) -> (r: Option<Self>) {
        let t = match get_str(fields, &String::from_str("type")) {
            Some(t) => t,
            None => {
                return None;
            },
        };
        if tag_is(t, "broadcast") {
            let v = match get_int(fields, &String::from_str("message")) {
                Some(v) => v,
                None => {
                    return None;
                },
            };
            Some(RequestMessages::Broadcast { message: v })
        } else if tag_is(t, "read") {
            Some(RequestMessages::Read {  })
        } else if tag_is(t, "topology") {
            let fs = match get_obj(fields, &String::from_str("topology")) {
                Some(fs) => fs,
                None => {
                    return None;
                },
            };
            let tp = match decode_topology(fs) {
                Some(tp) => tp,
                None => {
                    return None;
                },
            };
            Some(RequestMessages::Topology { topology: tp })
        } else if tag_is(t, "gossip") {
            let xs = match get_arr(fields, &String::from_str("news")) {
                Some(xs) => xs,
                None => {
                    return None;
                },
            };
            let ns = match decode_news(xs) {
                Some(ns) => ns,
                None => {
                    return None;
                },
            };
            Some(RequestMessages::Gossip { news: ns })
        } else {
            None
        }
    }
}

/// The trees a list of counter values rides as.
pub open spec fn int_list_jv(s: Seq<u64>) -> Seq<Jv> {
    Seq::new(s.len(), |i: int| Jv::Int(s[i]))
}

/// Encodes a list of counter values.
fn encode_ints(vals: &Vec<u64>) -> (r: Vec<Json>)
    ensures
        arr_v(r@) == int_list_jv(vals@),
{
    let mut r: Vec<Json> = Vec::new();
    let mut i: usize = 0;
    while i < vals.len()
        invariant
            0 <= i <= vals.len(),
            arr_v(r@) == int_list_jv(vals@.take(i as int)),
        decreases vals.len() - i,
    {
        let j = Json::Int(vals[i]);
        let ghost r0 = r@;
        let ghost jg = j;
        r.push(j);
        proof {
            assert(arr_v(r0).len() == r0.len());
            assert(int_list_jv(vals@.take(i as int)).len() == i as int);
            assert(r0.len() == i as int);
            assert forall|k: int| 0 <= k < r@.len() implies arr_v(r@)[k] == int_list_jv(
                vals@.take(i + 1),
            )[k] by {
                if k < i {
                    assert(arr_v(r0)[k] == int_list_jv(vals@.take(i as int))[k]);
                    assert(r@[k] == r0[k]);
                } else {
                    assert(r@ == r0.push(jg));
                    assert(r@[k] == jg);
                }
            }
            assert(arr_v(r@) =~= int_list_jv(vals@.take(i + 1)));
        }
        i += 1;
    }
    proof {
        assert(vals@.take(vals@.len() as int) =~= vals@);
        assert(arr_v(r@) =~= int_list_jv(vals@));
    }
    r
}

impl JsonEncode for ResponseMessages {
    open spec fn fields_of(pv: ResponseV) -> Seq<(Seq<char>, Jv)> {
        match pv {
            ResponseV::BroadcastOk => seq![("type"@, Jv::Str("broadcast_ok"@))],
            ResponseV::ReadOk { messages } => seq![
                ("type"@, Jv::Str("read_ok"@)),
                ("messages"@, Jv::Arr(int_list_jv(messages))),
            ],
            ResponseV::TopologyOk => seq![("type"@, Jv::Str("topology_ok"@))],
            ResponseV::Gossip { news } => seq![
                ("type"@, Jv::Str("gossip"@)),
                ("news"@, Jv::Arr(news_list_jv(news))),
            ],
        }
    }

    fn encode_fields(&self) -> (r: Vec<(String, Json)>) {
        let mut r: Vec<(String, Json)> = Vec::new();
        match self {
            ResponseMessages::BroadcastOk {} => {
                r.push((String::from_str("type"), Json::Str(String::from_str("broadcast_ok"))));
            },
            ResponseMessages::ReadOk { messages } => {
                r.push((String::from_str("type"), Json::Str(String::from_str("read_ok"))));
                let arr = Json::Arr(encode_ints(messages));
                proof {
                    arr_view_fact(arr);
                }
                r.push((String::from_str("messages"), arr));
            },
            ResponseMessages::TopologyOk {} => {
                r.push((String::from_str("type"), Json::Str(String::from_str("topology_ok"))));
            },
            ResponseMessages::Gossip { news } => {
                r.push((String::from_str("type"), Json::Str(String::from_str("gossip"))));
                let arr = Json::Arr(encode_news(news));
                proof {
                    arr_view_fact(arr);
                }
                r.push((String::from_str("news"), arr));
            },
        }
        proof {
            assert(fields_v(r@) =~= Self::fields_of(self@));
        }
        r
    }
}

} // verus!
