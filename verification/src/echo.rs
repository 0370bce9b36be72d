//! The echo responder: answers each echo request with the same text.

use vstd::prelude::*;
use vstd::string::StringExecFns;
use crate::codec::{get_str, tag_is, JsonDecode, JsonEncode};
use crate::json::{fields_v, jv_get, Json, Jv};
use crate::msg::{Init, Message, MsgId, MsgV, Payload};

verus! {

/// The request the echo responder handles.
pub enum EchoMessages {
    Echo { echo: String },
}

/// The model of an echo request.
pub enum EchoV {
    Echo { echo: Seq<char> },
}

impl View for EchoMessages {
    type V = EchoV;

    open spec fn view(&self) -> EchoV {
        match self {
            EchoMessages::Echo { echo } => EchoV::Echo { echo: echo@ },
        }
    }
}

impl Payload for EchoMessages {

}

impl JsonDecode for EchoMessages {
    open spec fn spec_decode(fields: Seq<(Seq<char>, Jv)>) -> Option<EchoV> {
        match jv_get(fields, "type"@) {
            Some(Jv::Str(t)) => if t == "echo"@ {
                match jv_get(fields, "echo"@) {
                    Some(Jv::Str(e)) => Some(EchoV::Echo { echo: e }),
                    _ => None,
                }
            } else {
                None
            },
            _ => None,
        }
    }

    fn decode_fields(fields: &Vec<(String, Json)>) -> (r: Option<Self>) {
        let t = match get_str(fields, &String::from_str("type")) {
            Some(t) => t,
            None => {
                return None;
            },
        };
        if !tag_is(t, "echo") {
            return None;
        }
        let e = match get_str(fields, &String::from_str("echo")) {
            Some(e) => e.clone(),
            None => {
                return None;
            },
        };
        Some(EchoMessages::Echo { echo: e })
    }
}

/// The reply the echo responder sends.
pub enum EchoOkMessage {
    EchoOk { echo: String },
}

/// The model of an echo reply.
pub enum EchoOkV {
    EchoOk { echo: Seq<char> },
}

impl View for EchoOkMessage {
    type V = EchoOkV;

    open spec fn view(&self) -> EchoOkV {
        match self {
            EchoOkMessage::EchoOk { echo } => EchoOkV::EchoOk { echo: echo@ },
        }
    }
}

impl Payload for EchoOkMessage {

}

impl JsonEncode for EchoOkMessage {
    open spec fn fields_of(pv: EchoOkV) -> Seq<(Seq<char>, Jv)> {
        match pv {
            EchoOkV::EchoOk { echo } => seq![
                ("type"@, Jv::Str("echo_ok"@)),
                ("echo"@, Jv::Str(echo)),
            ],
        }
    }

    fn encode_fields(&self) -> (r: Vec<(String, Json)>) {
        let mut r: Vec<(String, Json)> = Vec::new();
        match self {
            EchoOkMessage::EchoOk { echo } => {
                r.push((String::from_str("type"), Json::Str(String::from_str("echo_ok"))));
                r.push((String::from_str("echo"), Json::Str(echo.clone())));
            },
        }
        proof {
            assert(fields_v(r@) =~= Self::fields_of(self@));
        }
        r
    }
}

/// The echo responder's state: only its outbound message counter.
pub struct EchoNode {
    msg_seq: MsgId,
}

impl View for EchoNode {
    type V = u64;

    closed spec fn view(&self) -> u64 {
        self.msg_seq@
    }
}

impl EchoNode {
    /// A fresh responder: first outbound id is one.
    pub fn new(init: Init) -> (r: EchoNode)
        ensures
            r@ == 1,
    {
        let _ = init;
        EchoNode { msg_seq: MsgId::one() }
    }

    /// Whether the outbound counter has room for another reply.
    pub fn can_process(&self) -> (r: bool)
        ensures
            r == (self@ < u64::MAX),
    {
        self.msg_seq.as_u64() < u64::MAX
    }

    /// Answers an echo request: the reply carries the same text back to the
    /// requester, stamped with the next outbound id.
    pub fn process(&mut self, request: &Message<EchoMessages>) -> (r: Message<EchoOkMessage>)
        requires
            old(self)@ < u64::MAX,
        ensures
            final(self)@ == old(self)@ + 1,
            r@ == (MsgV {
                src: request@.dst,
                dst: request@.src,
                msg_id: Some(old(self)@),
                in_reply_to: request@.msg_id,
                payload: EchoOkV::EchoOk {
                    echo: (match request@.payload {
                        EchoV::Echo { echo } => echo,
                    }),
                },
            }),
    {
        let id = self.msg_seq.mint();
        match request.payload() {
            EchoMessages::Echo { echo } => request.respond(
                Some(id),
                EchoOkMessage::EchoOk { echo: echo.clone() },
            ),
        }
    }
}

} // verus!
