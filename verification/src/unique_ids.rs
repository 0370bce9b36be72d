//! The unique-id generator: each id is the node's local sequence number and
//! its identity, joined by a separator — unique with no coordination, since
//! identities are unique and the sequence only grows.

use vstd::prelude::*;
use vstd::string::StringExecFns;
use crate::codec::{get_str, tag_is, JsonDecode, JsonEncode};
use crate::json::{fields_v, jv_get, Json, Jv};
use crate::msg::{Init, Message, MsgId, MsgV, NodeId, Payload};

verus! {

/// The decimal digit character for one digit value.
pub open spec fn digit_char(d: nat) -> char {
    if d == 0 {
        '0'
    } else if d == 1 {
        '1'
    } else if d == 2 {
        '2'
    } else if d == 3 {
        '3'
    } else if d == 4 {
        '4'
    } else if d == 5 {
        '5'
    } else if d == 6 {
        '6'
    } else if d == 7 {
        '7'
    } else if d == 8 {
        '8'
    } else {
        '9'
    }
}

/// The decimal rendering of a number, most significant digit first.
pub open spec fn dec_digits(n: nat) -> Seq<char>
    decreases n,
{
    if n < 10 {
        seq![digit_char(n)]
    } else {
        dec_digits(n / 10).push(digit_char(n % 10))
    }
}

/// The text of one decimal digit.
fn digit_str(d: u64) -> (r: &'static str)
    requires
        d < 10,
    ensures
        r@ == seq![digit_char(d as nat)],
{
    let r: &'static str = if d == 0 {
        "0"
    } else if d == 1 {
        "1"
    } else if d == 2 {
        "2"
    } else if d == 3 {
        "3"
    } else if d == 4 {
        "4"
    } else if d == 5 {
        "5"
    } else if d == 6 {
        "6"
    } else if d == 7 {
        "7"
    } else if d == 8 {
        "8"
    } else {
        "9"
    };
    proof {
        reveal_strlit("0");
        reveal_strlit("1");
        reveal_strlit("2");
        reveal_strlit("3");
        reveal_strlit("4");
        reveal_strlit("5");
        reveal_strlit("6");
        reveal_strlit("7");
        reveal_strlit("8");
        reveal_strlit("9");
        assert(r@ =~= seq![digit_char(d as nat)]);
    }
    r
}

/// Renders a number in decimal.
pub fn u64_to_string(n: u64) -> (r: String)
    ensures
        r@ == dec_digits(n as nat),
    decreases n,
{
    if n < 10 {
        String::from_str(digit_str(n))
    } else {
        proof {
            assert(n / 10 < n) by (nonlinear_arith)
                requires
                    n >= 10,
            ;
        }
        let mut s = u64_to_string(n / 10);
        s.append(digit_str(n % 10));
        proof {
            assert(dec_digits((n / 10) as nat).push(digit_char((n % 10) as nat)) =~= dec_digits(
                (n / 10) as nat,
            ) + seq![digit_char((n % 10) as nat)]);
        }
        s
    }
}

/// The id text minted for sequence number `n` at node `node`.
pub open spec fn gen_id(n: u64, node: Seq<char>) -> Seq<char> {
    dec_digits(n as nat) + seq!['@'] + node
}

/// The request the generator handles.
pub enum RequestMessages {
    Generate {},
}

impl View for RequestMessages {
    type V = RequestMessages;

    open spec fn view(&self) -> RequestMessages {
        RequestMessages::Generate {  }
    }
}

impl Payload for RequestMessages {

}

impl JsonDecode for RequestMessages {
    open spec fn spec_decode(fields: Seq<(Seq<char>, Jv)>) -> Option<RequestMessages> {
        match jv_get(fields, "type"@) {
            Some(Jv::Str(t)) => if t == "generate"@ {
                Some(RequestMessages::Generate {  })
            } else {
                None
            },
            _ => None,
        }
    }

    fn decode_fields(fields: &Vec<(String, Json)>) -> (r: Option<Self>) {
        let t = match get_str(fields, &String::from_str("type")) {
            Some(t) => t,
            None => {
                return None;
            },
        };
        if !tag_is(t, "generate") {
            return None;
        }
        Some(RequestMessages::Generate {  })
    }
}

/// The reply the generator sends: the freshly minted id.
pub enum ResponseMessages {
    GenerateOk { id: String },
}

/// The model of a generator reply.
pub enum ResponseV {
    GenerateOk { id: Seq<char> },
}

impl View for ResponseMessages {
    type V = ResponseV;

    open spec fn view(&self) -> ResponseV {
        match self {
            ResponseMessages::GenerateOk { id } => ResponseV::GenerateOk { id: id@ },
        }
    }
}

impl Payload for ResponseMessages {

}

impl JsonEncode for ResponseMessages {
    open spec fn fields_of(pv: ResponseV) -> Seq<(Seq<char>, Jv)> {
        match pv {
            ResponseV::GenerateOk { id } => seq![
                ("type"@, Jv::Str("generate_ok"@)),
                ("id"@, Jv::Str(id)),
            ],
        }
    }

    fn encode_fields(&self) -> (r: Vec<(String, Json)>) {
        let mut r: Vec<(String, Json)> = Vec::new();
        match self {
            ResponseMessages::GenerateOk { id } => {
                r.push((String::from_str("type"), Json::Str(String::from_str("generate_ok"))));
                r.push((String::from_str("id"), Json::Str(id.clone())));
            },
        }
        proof {
            assert(fields_v(r@) =~= Self::fields_of(self@));
        }
        r
    }
}

/// The generator's state: its outbound counter, which doubles as the local
/// sequence number, and the node's identity.
pub struct UniqueIdsNode {
    msg_seq: MsgId,
    node_id: NodeId,
}

/// The model of the generator's state.
pub struct UniqueIdsV {
    pub msg_seq: u64,
    pub node_id: Seq<char>,
}

impl View for UniqueIdsNode {
    type V = UniqueIdsV;

    closed spec fn view(&self) -> UniqueIdsV {
        UniqueIdsV { msg_seq: self.msg_seq@, node_id: self.node_id@ }
    }
}

impl UniqueIdsNode {
    /// A fresh generator: first sequence number is one.
    pub fn new(init: Init) -> (r: UniqueIdsNode)
        ensures
            r@.msg_seq == 1,
            r@.node_id == init@.node_id,
    {
        match init {
            Init::Init { node_id, node_ids: _ } => UniqueIdsNode {
                msg_seq: MsgId::one(),
                node_id,
            },
        }
    }

    /// Whether the outbound counter has room for another id.
    pub fn can_process(&self) -> (r: bool)
        ensures
            r == (self@.msg_seq < u64::MAX),
    {
        self.msg_seq.as_u64() < u64::MAX
    }

    /// Answers a generate request: the reply carries the id minted from the
    /// current sequence number and this node's identity, so successive ids of
    /// one node never repeat.
    pub fn process(&mut self, request: &Message<RequestMessages>) -> (r: Message<ResponseMessages>)
        requires
            old(self)@.msg_seq < u64::MAX,
        ensures
            final(self)@.msg_seq == old(self)@.msg_seq + 1,
            final(self)@.node_id == old(self)@.node_id,
            r@ == (MsgV {
                src: request@.dst,
                dst: request@.src,
                msg_id: Some(old(self)@.msg_seq),
                in_reply_to: request@.msg_id,
                payload: ResponseV::GenerateOk {
                    id: gen_id(old(self)@.msg_seq, old(self)@.node_id),
                },
            }),
    {
        let mut id_text = u64_to_string(self.msg_seq.as_u64());
        id_text.append("@");
        id_text.append(self.node_id.name().as_str());
        proof {
            reveal_strlit("@");
            assert(id_text@ =~= gen_id(self@.msg_seq, self@.node_id));
        }
        let id = self.msg_seq.mint();
        request.respond(Some(id), ResponseMessages::GenerateOk { id: id_text })
    }
}

} // verus!
