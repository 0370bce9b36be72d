//! The read-loop decisions of a node: how the initialization line is answered
//! and how each later line is decoded, dispatched, answered when malformed,
//! or found fatal.

use vstd::prelude::*;
use crate::codec::{msg_jv, spec_decode_msg, JsonDecode, JsonEncode};
use crate::json::{json_of, json_text, json_to_string, parse_json, Json};
use crate::msg::{EmptyBody, Error, ErrorCode, ErrorV, Init, InitOk, InitV, Message, MsgId, MsgV};

verus! {

/// What one inbound line calls for.
pub enum LineStep<P> {
    /// A well-formed request, to hand to the handler.
    Request(Message<P>),
    /// A request whose body the handler cannot read, but whose routing fields
    /// were salvaged: the error reply to send back.
    Malformed(Message<Error>),
    /// Not even the routing fields can be read: fatal, nothing to answer.
    Fatal,
}

/// The model of what one inbound line calls for.
pub enum LineStepV<PV> {
    Request(MsgV<PV>),
    Malformed(MsgV<ErrorV>),
    Fatal,
}

/// The error reply that answers a malformed request salvaged as `f`.
pub open spec fn malformed_reply(f: MsgV<EmptyBody>) -> MsgV<ErrorV> {
    MsgV {
        src: f.dst,
        dst: f.src,
        msg_id: None,
        in_reply_to: f.msg_id,
        payload: ErrorV { code: 12, text: None },
    }
}

/// What a line of input calls for, with payload `P`: dispatch when it decodes
/// as a request, a malformed-request error reply when only the routing fields
/// can be read, and a fatal stop when not even those can.
pub open spec fn spec_line_step<P: JsonDecode>(s: Seq<char>) -> LineStepV<P::V> {
    match json_of(s) {
        Some(j) => match spec_decode_msg::<P>(j) {
            Some(m) => LineStepV::Request(m),
            None => match spec_decode_msg::<EmptyBody>(j) {
                Some(f) => LineStepV::Malformed(malformed_reply(f)),
                None => LineStepV::Fatal,
            },
        },
        None => LineStepV::Fatal,
    }
}

/// Decodes one inbound line and decides what it calls for.
pub fn line_step<P: JsonDecode>(line: &str) -> (r: LineStep<P>)
    ensures
        match r {
            LineStep::Request(m) => spec_line_step::<P>(line@) == LineStepV::Request(m@),
            LineStep::Malformed(e) => spec_line_step::<P>(line@) == LineStepV::<P::V>::Malformed(
                e@,
            ),
            LineStep::Fatal => spec_line_step::<P>(line@) is Fatal,
        },
{
    let j = match parse_json(line) {
        Some(j) => j,
        None => {
            return LineStep::Fatal;
        },
    };
    match Message::<P>::from_json(&j) {
        Some(m) => LineStep::Request(m),
        None => {
            match Message::<EmptyBody>::from_json(&j) {
                Some(f) => LineStep::Malformed(
                    f.respond_error(ErrorCode::MalformedRequest, None),
                ),
                None => LineStep::Fatal,
            }
        },
    }
}

/// The initialization exchange: what the first line must decode to, and the
/// acknowledgment sent for it, stamped with id zero from a counter of its own.
pub open spec fn spec_init_step(s: Seq<char>) -> Option<(InitV, Seq<char>)> {
    match json_of(s) {
        Some(j) => match spec_decode_msg::<Init>(j) {
            Some(m) => Some(
                (
                    m.payload,
                    json_text(
                        msg_jv::<InitOk>(
                            MsgV {
                                src: m.dst,
                                dst: m.src,
                                msg_id: Some(0),
                                in_reply_to: m.msg_id,
                                payload: InitOk::InitOk {  },
                            },
                        ),
                    ),
                ),
            ),
            None => None,
        },
        None => None,
    }
}

/// Handles the initialization line: the decoded identity and peers, and the
/// acknowledgment line to print, or nothing if the line is not a well-formed
/// initialization request.
pub fn init_step(line: &str) -> (r: Option<(Init, String)>)
    ensures
        match r {
            Some((init, out)) => spec_init_step(line@) == Some((init@, out@)),
            None => spec_init_step(line@) is None,
        },
{
    let j = match parse_json(line) {
        Some(j) => j,
        None => {
            return None;
        },
    };
    let m = match Message::<Init>::from_json(&j) {
        Some(m) => m,
        None => {
            return None;
        },
    };
    let mut seq0 = MsgId::new(0);
    let reply = m.respond(Some(seq0.mint()), InitOk::InitOk {  });
    let out = encode_line(&reply);
    Some((m.into_payload(), out))
}

/// Prints one outbound message as the line it rides the wire as.
pub fn encode_line<P: JsonEncode>(m: &Message<P>) -> (r: String)
    ensures
        r@ == json_text(msg_jv::<P>(m@)),
{
    let j = m.to_json();
    json_to_string(&j)
}

} // verus!
