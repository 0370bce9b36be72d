//! Node identity, outbound message counters, the message envelope, and the
//! uniform error-reporting payload with its numeric code mapping.

use vstd::prelude::*;
use vstd::string::StringExecFns;

verus! {

/// A per-node monotonically increasing outbound message counter value.
#[derive(Debug, Clone, Copy, PartialEq, Eq, Structural)]
pub struct MsgId(u64);

impl View for MsgId {
    type V = u64;

    closed spec fn view(&self) -> u64 {
        self.0
    }
}

impl MsgId {
    /// The first id a node ever mints.
    pub fn one() -> (r: MsgId)
        ensures
            r@ == 1,
    {
        MsgId(1)
    }

    pub fn new(n: u64) -> (r: MsgId)
        ensures
            r@ == n,
    {
        MsgId(n)
    }

    /// The numeric value of this id.
    pub fn as_u64(&self) -> (r: u64)
        ensures
            r == self@,
    {
        self.0
    }

    /// Returns the current id and advances the counter by one, so that
    /// successive outbound ids strictly increase by one.
    pub fn mint(&mut self) -> (r: MsgId)
        requires
            old(self)@ < u64::MAX,
        ensures
            r@ == old(self)@,
            final(self)@ == old(self)@ + 1,
    {
        let r = *self;
        self.0 = self.0 + 1;
        r
    }
}

/// Opaque string identity of a node, assigned at initialization.
#[derive(Debug)]
pub struct NodeId(String);

impl View for NodeId {
    type V = Seq<char>;

    closed spec fn view(&self) -> Seq<char> {
        self.0@
    }
}

impl Clone for NodeId {
    fn clone(&self) -> (r: NodeId)
        ensures
            r == *self,
    {
        NodeId(self.0.clone())
    }
}

impl PartialEq for NodeId {
    fn eq(&self, other: &NodeId) -> bool {
        self.0 == other.0
    }
}

impl vstd::std_specs::cmp::PartialEqSpecImpl for NodeId {
    open spec fn obeys_eq_spec() -> bool {
        true
    }

    open spec fn eq_spec(&self, other: &NodeId) -> bool {
        self@ == other@
    }
}

impl NodeId {
    pub fn new(name: String) -> (r: NodeId)
        ensures
            r@ == name@,
    {
        NodeId(name)
    }

    pub fn name(&self) -> (r: &String)
        ensures
            r@ == self@,
    {
        &self.0
    }

    /// The fixed identity of the external linearizable key-value service.
    pub fn seq_kv() -> (r: NodeId)
        ensures
            r@ == "seq-kv"@,
    {
        NodeId(String::from_str("seq-kv"))
    }
}

/// Marker for the body types that can ride in a message envelope.
pub trait Payload: View + Sized {

}

/// The model of an envelope: routing fields and the payload's own model.
pub struct MsgV<PV> {
    pub src: Seq<char>,
    pub dst: Seq<char>,
    pub msg_id: Option<u64>,
    pub in_reply_to: Option<u64>,
    pub payload: PV,
}

pub open spec fn opt_id_v(m: Option<MsgId>) -> Option<u64> {
    match m {
        Some(i) => Some(i@),
        None => None,
    }
}

pub open spec fn opt_str_v(t: Option<String>) -> Option<Seq<char>> {
    match t {
        Some(s) => Some(s@),
        None => None,
    }
}

/// The model of a list of node identities.
pub open spec fn ids_v(s: Seq<NodeId>) -> Seq<Seq<char>> {
    Seq::new(s.len(), |i: int| s[i]@)
}

/// The body of an envelope: correlation ids and the payload.
pub(crate) struct Body<P> {
    pub(crate) msg_id: Option<MsgId>,
    pub(crate) in_reply_to: Option<MsgId>,
    pub(crate) payload: P,
}

/// One wire message: source, destination, and a body.
pub struct Message<P> {
    src: NodeId,
    dst: NodeId,
    body: Body<P>,
}

impl<P: Payload> View for Message<P> {
    type V = MsgV<P::V>;

    closed spec fn view(&self) -> MsgV<P::V> {
        MsgV {
            src: self.src@,
            dst: self.dst@,
            msg_id: opt_id_v(self.body.msg_id),
            in_reply_to: opt_id_v(self.body.in_reply_to),
            payload: self.body.payload@,
        }
    }
}

impl<P: Payload> Message<P> {
    /// A fresh request envelope; `msg_id` is the id minted for it, if a reply
    /// is expected.
    pub fn new(src: NodeId, dst: NodeId, msg_id: Option<MsgId>, payload: P) -> (r: Message<P>)
        ensures
            r@ == (MsgV {
                src: src@,
                dst: dst@,
                msg_id: opt_id_v(msg_id),
                in_reply_to: None::<u64>,
                payload: payload@,
            }),
    {
        Message { src, dst, body: Body { msg_id, in_reply_to: None, payload } }
    }

    /// The reply envelope to this message: routing reversed, correlated to
    /// this message's id.
    pub fn respond<R: Payload>(&self, msg_id: Option<MsgId>, payload: R) -> (r: Message<R>)
        ensures
            r@ == (MsgV {
                src: self@.dst,
                dst: self@.src,
                msg_id: opt_id_v(msg_id),
                in_reply_to: self@.msg_id,
                payload: payload@,
            }),
    {
        Message {
            src: self.dst.clone(),
            dst: self.src.clone(),
            body: Body { msg_id, in_reply_to: self.body.msg_id, payload },
        }
    }

    /// The error reply to this message, carrying the numeric code of `code`.
    pub fn respond_error(&self, code: ErrorCode, text: Option<String>) -> (r: Message<Error>)
        ensures
            r@ == (MsgV {
                src: self@.dst,
                dst: self@.src,
                msg_id: None::<u64>,
                in_reply_to: self@.msg_id,
                payload: ErrorV { code: code.spec_code(), text: opt_str_v(text) },
            }),
    {
        let numeric = code.code();
        self.respond(None, Error::Error { code: numeric, text })
    }

    pub fn src(&self) -> (r: &NodeId)
        ensures
            r@ == self@.src,
    {
        &self.src
    }

    pub(crate) fn dst(&self) -> (r: &NodeId)
        ensures
            r@ == self@.dst,
    {
        &self.dst
    }

    /// Assembles an envelope from decoded routing fields.
    pub(crate) fn assemble(
        src: NodeId,
        dst: NodeId,
        msg_id: Option<MsgId>,
        in_reply_to: Option<MsgId>,
        payload: P,
    ) -> (r: Message<P>)
        ensures
            r@ == (MsgV {
                src: src@,
                dst: dst@,
                msg_id: opt_id_v(msg_id),
                in_reply_to: opt_id_v(in_reply_to),
                payload: payload@,
            }),
    {
        Message { src, dst, body: Body { msg_id, in_reply_to, payload } }
    }

    pub fn id(&self) -> (r: Option<MsgId>)
        ensures
            opt_id_v(r) == self@.msg_id,
    {
        self.body.msg_id
    }

    pub fn in_response_to(&self) -> (r: Option<MsgId>)
        ensures
            opt_id_v(r) == self@.in_reply_to,
    {
        self.body.in_reply_to
    }

    pub fn payload(&self) -> (r: &P)
        ensures
            r@ == self@.payload,
    {
        &self.body.payload
    }

    /// Takes the payload out of the envelope.
    pub fn into_payload(self) -> (r: P)
        ensures
            r@ == self@.payload,
    {
        self.body.payload
    }
}

/// The initialization handshake request: this node's identity and the full
/// set of peer identities.
pub enum Init {
    Init { node_id: NodeId, node_ids: Vec<NodeId> },
}

/// The model of an initialization request.
pub struct InitV {
    pub node_id: Seq<char>,
    pub node_ids: Seq<Seq<char>>,
}

impl View for Init {
    type V = InitV;

    open spec fn view(&self) -> InitV {
        match self {
            Init::Init { node_id, node_ids } => InitV {
                node_id: node_id@,
                node_ids: ids_v(node_ids@),
            },
        }
    }
}

impl Payload for Init {

}

/// The acknowledgment of the initialization handshake.
#[derive(Debug, Clone, Copy, PartialEq, Eq, Structural)]
pub enum InitOk {
    InitOk {},
}

impl View for InitOk {
    type V = InitOk;

    open spec fn view(&self) -> InitOk {
        *self
    }
}

impl Payload for InitOk {

}

/// The uniform error payload sent back to a requester.
pub enum Error {
    Error { code: u64, text: Option<String> },
}

/// The model of an error payload.
pub struct ErrorV {
    pub code: u64,
    pub text: Option<Seq<char>>,
}

impl View for Error {
    type V = ErrorV;

    open spec fn view(&self) -> ErrorV {
        match self {
            Error::Error { code, text } => ErrorV { code: *code, text: opt_str_v(*text) },
        }
    }
}

impl Payload for Error {

}

/// A body with no payload fields: only the routing fields are read. Used by
/// the fallback decode that salvages who to answer when a request is
/// malformed.
#[derive(Debug, Clone, Copy, PartialEq, Eq, Structural)]
pub struct EmptyBody {}

impl View for EmptyBody {
    type V = EmptyBody;

    open spec fn view(&self) -> EmptyBody {
        *self
    }
}

impl Payload for EmptyBody {

}

/// The closed set of protocol error kinds, and an escape for user-defined
/// codes of one thousand and above.
#[derive(Debug, Clone, Copy, PartialEq, Eq, Structural)]
pub enum ErrorCode {
    Timeout,
    NodeNotFound,
    NotSupported,
    TemporarilyUnavailable,
    MalformedRequest,
    Chrash,
    Abort,
    KeyDoesNotExist,
    KeyExistsAlready,
    PreConditionFailed,
    TransactionConflict,
    Custom { code: u64 },
}

impl ErrorCode {
    /// The numeric code each error kind rides the wire as.
    pub open spec fn spec_code(&self) -> u64 {
        match self {
            ErrorCode::Timeout => 0,
            ErrorCode::NodeNotFound => 1,
            ErrorCode::NotSupported => 10,
            ErrorCode::TemporarilyUnavailable => 11,
            ErrorCode::MalformedRequest => 12,
            ErrorCode::Chrash => 13,
            ErrorCode::Abort => 14,
            ErrorCode::KeyDoesNotExist => 20,
            ErrorCode::KeyExistsAlready => 21,
            ErrorCode::PreConditionFailed => 22,
            ErrorCode::TransactionConflict => 30,
            ErrorCode::Custom { code } => *code,
        }
    }

    pub fn code(&self) -> (r: u64)
        ensures
            r == self.spec_code(),
    {
        match self {
            ErrorCode::Timeout => 0,
            ErrorCode::NodeNotFound => 1,
            ErrorCode::NotSupported => 10,
            ErrorCode::TemporarilyUnavailable => 11,
            ErrorCode::MalformedRequest => 12,
            ErrorCode::Chrash => 13,
            ErrorCode::Abort => 14,
            ErrorCode::KeyDoesNotExist => 20,
            ErrorCode::KeyExistsAlready => 21,
            ErrorCode::PreConditionFailed => 22,
            ErrorCode::TransactionConflict => 30,
            ErrorCode::Custom { code } => *code,
        }
    }

    /// A user-defined error: those live at one thousand and above.
    pub fn custom(code: u64) -> (r: Self)
        requires
            code >= 1000,
        ensures
            r == (ErrorCode::Custom { code }),
    {
        Self::Custom { code }
    }

    /// The error kind a numeric wire code decodes to: a standard kind for the
    /// closed codes, user-defined at one thousand and above, nothing for any
    /// other value.
    pub open spec fn spec_from_code(code: u64) -> Option<ErrorCode> {
        if code == 0 {
            Some(ErrorCode::Timeout)
        } else if code == 1 {
            Some(ErrorCode::NodeNotFound)
        } else if code == 10 {
            Some(ErrorCode::NotSupported)
        } else if code == 11 {
            Some(ErrorCode::TemporarilyUnavailable)
        } else if code == 12 {
            Some(ErrorCode::MalformedRequest)
        } else if code == 13 {
            Some(ErrorCode::Chrash)
        } else if code == 14 {
            Some(ErrorCode::Abort)
        } else if code == 20 {
            Some(ErrorCode::KeyDoesNotExist)
        } else if code == 21 {
            Some(ErrorCode::KeyExistsAlready)
        } else if code == 22 {
            Some(ErrorCode::PreConditionFailed)
        } else if code == 30 {
            Some(ErrorCode::TransactionConflict)
        } else if code >= 1000 {
            Some(ErrorCode::Custom { code })
        } else {
            None
        }
    }

    pub fn from_code(code: u64) -> (r: Option<ErrorCode>)
        ensures
            r == Self::spec_from_code(code),
    {
        if code == 0 {
            Some(ErrorCode::Timeout)
        } else if code == 1 {
            Some(ErrorCode::NodeNotFound)
        } else if code == 10 {
            Some(ErrorCode::NotSupported)
        } else if code == 11 {
            Some(ErrorCode::TemporarilyUnavailable)
        } else if code == 12 {
            Some(ErrorCode::MalformedRequest)
        } else if code == 13 {
            Some(ErrorCode::Chrash)
        } else if code == 14 {
            Some(ErrorCode::Abort)
        } else if code == 20 {
            Some(ErrorCode::KeyDoesNotExist)
        } else if code == 21 {
            Some(ErrorCode::KeyExistsAlready)
        } else if code == 22 {
            Some(ErrorCode::PreConditionFailed)
        } else if code == 30 {
            Some(ErrorCode::TransactionConflict)
        } else if code >= 1000 {
            Some(ErrorCode::Custom { code })
        } else {
            None
        }
    }
}

/// Encoding an error kind to its numeric code and decoding it back yields
/// the kind unchanged, for every kind whose user-defined code is in range.
pub proof fn lemma_error_code_round_trip(c: ErrorCode)
    requires
        c matches ErrorCode::Custom { code } ==> code >= 1000,
    ensures
        ErrorCode::spec_from_code(c.spec_code()) == Some(c),
{
}

} // verus!
