//! The envelope codec: how a message and its payload ride one JSON tree.
//! Encoding and decoding are split per direction, since each payload family
//! travels only one way through a node.

use vstd::prelude::*;
use vstd::string::StringExecFns;
use crate::json::{fields_v, jv_get, obj_get, Json, Jv};
use crate::msg::{opt_id_v, Message, MsgId, MsgV, NodeId, Payload};

verus! {

/// The view of an object tree is the model of its field list.
#[verifier::rlimit(50)]
pub proof fn obj_view_fact(j: Json)
    requires
        j matches Json::Obj(_),
    ensures
        j@ == Jv::Obj(fields_v(j->Obj_0@)),
{
    reveal_with_fuel(<Json as View>::view, 2);
    match j {
        Json::Obj(fs) => {
            let jj = Json::Obj(fs);
            assert(j == jj);
            let lv = jj@->Obj_0;
            let rv = fields_v(fs@);
            assert(lv.len() == rv.len());
            assert forall|i: int| 0 <= i < fs@.len() implies lv[i] == rv[i] by {
                assert(lv[i] == (fs@[i].0@, fs@[i].1@));
                assert(rv[i] == (fs@[i].0@, fs@[i].1@));
            }
            assert(lv =~= rv);
        },
        _ => {
        },
    }
}

/// Finds the string value of `key`, if the field exists and is a string.
pub fn get_str<'a>(fields: &'a Vec<(String, Json)>, key: &String) -> (r: Option<&'a String>)
    ensures
        match r {
            Some(s) => jv_get(fields_v(fields@), key@) == Some(Jv::Str(s@)),
            None => !(jv_get(fields_v(fields@), key@) matches Some(Jv::Str(_))),
        },
{
    match obj_get(fields, key) {
        Some(Json::Str(s)) => Some(s),
        Some(_) => None,
        None => None,
    }
}

/// Finds the integer value of `key`, if the field exists and is an integer.
pub fn get_int(fields: &Vec<(String, Json)>, key: &String) -> (r: Option<u64>)
    ensures
        match r {
            Some(n) => jv_get(fields_v(fields@), key@) == Some(Jv::Int(n)),
            None => !(jv_get(fields_v(fields@), key@) matches Some(Jv::Int(_))),
        },
{
    match obj_get(fields, key) {
        Some(Json::Int(n)) => Some(*n),
        Some(_) => None,
        None => None,
    }
}

/// Finds the object value of `key`, if the field exists and is an object.
pub fn get_obj<'a>(fields: &'a Vec<(String, Json)>, key: &String) -> (r: Option<
    &'a Vec<(String, Json)>,
>)
    ensures
        match r {
            Some(fs) => jv_get(fields_v(fields@), key@) == Some(Jv::Obj(fields_v(fs@))),
            None => !(jv_get(fields_v(fields@), key@) matches Some(Jv::Obj(_))),
        },
{
    match obj_get(fields, key) {
        Some(j) => {
            match j {
                Json::Obj(fs) => {
                    proof {
                        obj_view_fact(*j);
                    }
                    Some(fs)
                },
                _ => None,
            }
        },
        None => None,
    }
}

/// Finds the array value of `key`, if the field exists and is an array.
pub fn get_arr<'a>(fields: &'a Vec<(String, Json)>, key: &String) -> (r: Option<&'a Vec<Json>>)
    ensures
        match r {
            Some(xs) => jv_get(fields_v(fields@), key@) == Some(Jv::Arr(arr_v(xs@))),
            None => !(jv_get(fields_v(fields@), key@) matches Some(Jv::Arr(_))),
        },
{
    match obj_get(fields, key) {
        Some(j) => {
            match j {
                Json::Arr(xs) => {
                    proof {
                        arr_view_fact(*j);
                    }
                    Some(xs)
                },
                _ => None,
            }
        },
        None => None,
    }
}

/// The model of a list of array elements: each by its view.
pub open spec fn arr_v(s: Seq<Json>) -> Seq<Jv> {
    Seq::new(s.len(), |i: int| s[i]@)
}

/// The view of an array tree is the model of its element list.
#[verifier::rlimit(50)]
pub proof fn arr_view_fact(j: Json)
    requires
        j matches Json::Arr(_),
    ensures
        j@ == Jv::Arr(arr_v(j->Arr_0@)),
{
    reveal_with_fuel(<Json as View>::view, 2);
    match j {
        Json::Arr(xs) => {
            let jj = Json::Arr(xs);
            assert(j == jj);
            let lv = jj@->Arr_0;
            let rv = arr_v(xs@);
            assert(lv.len() == rv.len());
            assert forall|i: int| 0 <= i < xs@.len() implies lv[i] == rv[i] by {
                assert(lv[i] == xs@[i]@);
                assert(rv[i] == xs@[i]@);
            }
            assert(lv =~= rv);
        },
        _ => {
        },
    }
}


/// A payload that can be encoded into the fields of a message body.
pub trait JsonEncode: Payload {
    /// The body fields, tag first, a payload with this model rides the wire
    /// as.
    spec fn fields_of(pv: Self::V) -> Seq<(Seq<char>, Jv)>;

    fn encode_fields(&self) -> (r: Vec<(String, Json)>)
        ensures
            fields_v(r@) == Self::fields_of(self@),
    ;
}

/// A payload that can be decoded from the fields of a message body.
pub trait JsonDecode: Payload {
    /// The payload, if any, that a body bearing these fields decodes to.
    spec fn spec_decode(fields: Seq<(Seq<char>, Jv)>) -> Option<Self::V>;

    fn decode_fields(fields: &Vec<(String, Json)>) -> (r: Option<Self>)
        ensures
            match r {
                Some(p) => Self::spec_decode(fields_v(fields@)) == Some(p@),
                None => Self::spec_decode(fields_v(fields@)) is None,
            },
    ;
}

/// The tree an optional correlation id rides as.
pub open spec fn opt_jv(m: Option<u64>) -> Jv {
    match m {
        Some(n) => Jv::Int(n),
        None => Jv::Null,
    }
}

/// The body fields of an envelope: correlation ids first, then the payload's
/// own fields.
pub open spec fn body_jv(
    msg_id: Option<u64>,
    in_reply_to: Option<u64>,
    pf: Seq<(Seq<char>, Jv)>,
) -> Seq<(Seq<char>, Jv)> {
    seq![("msg_id"@, opt_jv(msg_id)), ("in_reply_to"@, opt_jv(in_reply_to))] + pf
}

/// The tree a whole envelope rides as.
pub open spec fn envelope_jv(src: Seq<char>, dst: Seq<char>, body: Seq<(Seq<char>, Jv)>) -> Jv {
    Jv::Obj(seq![("src"@, Jv::Str(src)), ("dest"@, Jv::Str(dst)), ("body"@, Jv::Obj(body))])
}

/// The tree the whole envelope `m` rides as, with payload `P`.
pub open spec fn msg_jv<P: JsonEncode>(m: MsgV<P::V>) -> Jv {
    envelope_jv(m.src, m.dst, body_jv(m.msg_id, m.in_reply_to, P::fields_of(m.payload)))
}

/// How an optional correlation id reads back: absent or null means none, an
/// integer means that id, anything else is malformed.
pub open spec fn opt_id_jv(x: Option<Jv>) -> Option<Option<u64>> {
    match x {
        None => Some(None),
        Some(Jv::Null) => Some(None),
        Some(Jv::Int(n)) => Some(Some(n)),
        Some(_) => None,
    }
}

/// The envelope, if any, that a tree decodes to, with payload `P`: an object
/// with string routing fields, a body object whose correlation ids are
/// well-formed, and body fields that `P` accepts. Unknown fields are ignored.
pub open spec fn spec_decode_msg<P: JsonDecode>(j: Jv) -> Option<MsgV<P::V>> {
    match j {
        Jv::Obj(top) => {
            match (jv_get(top, "src"@), jv_get(top, "dest"@), jv_get(top, "body"@)) {
                (Some(Jv::Str(src)), Some(Jv::Str(dst)), Some(Jv::Obj(body))) => {
                    match (
                        opt_id_jv(jv_get(body, "msg_id"@)),
                        opt_id_jv(jv_get(body, "in_reply_to"@)),
                    ) {
                        (Some(msg_id), Some(in_reply_to)) => {
                            match P::spec_decode(body) {
                                Some(pv) => Some(
                                    MsgV { src, dst, msg_id, in_reply_to, payload: pv },
                                ),
                                None => None,
                            }
                        },
                        _ => None,
                    }
                },
                _ => None,
            }
        },
        _ => None,
    }
}

/// The node identities, if any, that a list of trees decodes to: every
/// element must be a string.
pub open spec fn ids_of_jv(s: Seq<Jv>) -> Option<Seq<Seq<char>>>
    decreases s.len(),
{
    if s.len() == 0 {
        Some(Seq::empty())
    } else {
        match s[0] {
            Jv::Str(n) => match ids_of_jv(s.drop_first()) {
                Some(rest) => Some(seq![n] + rest),
                None => None,
            },
            _ => None,
        }
    }
}

proof fn lemma_ids_of_jv_snoc(s: Seq<Jv>, x: Jv)
    ensures
        ids_of_jv(s.push(x)) == (match (ids_of_jv(s), x) {
            (Some(rest), Jv::Str(n)) => Some(rest.push(n)),
            _ => None::<Seq<Seq<char>>>,
        }),
    decreases s.len(),
{
    reveal_with_fuel(ids_of_jv, 2);
    if s.len() == 0 {
        assert(s.push(x)[0] == x);
        assert(s.push(x).drop_first() =~= Seq::empty());
        match x {
            Jv::Str(n) => {
                assert(ids_of_jv(s.push(x))->Some_0 =~= ids_of_jv(s)->Some_0.push(n));
            },
            _ => {
            },
        }
    } else {
        assert(s.push(x)[0] == s[0]);
        assert(s.push(x).drop_first() =~= s.drop_first().push(x));
        lemma_ids_of_jv_snoc(s.drop_first(), x);
        match (ids_of_jv(s), x) {
            (Some(rest), Jv::Str(n)) => {
                assert(ids_of_jv(s.push(x))->Some_0 =~= rest.push(n));
            },
            _ => {
            },
        }
    }
}

/// Decodes a list of node identities out of an array of trees.
pub(crate) fn decode_ids(xs: &Vec<Json>) -> (r: Option<Vec<NodeId>>)
    ensures
        match r {
            Some(ids) => ids_of_jv(arr_v(xs@)) == Some(crate::msg::ids_v(ids@)),
            None => ids_of_jv(arr_v(xs@)) is None,
        },
{
    let mut ids: Vec<NodeId> = Vec::new();
    let mut i: usize = 0;
    while i < xs.len()
        invariant
            0 <= i <= xs.len(),
            ids_of_jv(arr_v(xs@).take(i as int)) == Some(crate::msg::ids_v(ids@)),
        decreases xs.len() - i,
    {
        let n = match &xs[i] {
            Json::Str(s) => s.clone(),
            _ => {
                proof {
                    assert(arr_v(xs@).take(i as int).push(arr_v(xs@)[i as int]) =~= arr_v(
                        xs@,
                    ).take(i + 1));
                    lemma_ids_of_jv_snoc(arr_v(xs@).take(i as int), arr_v(xs@)[i as int]);
                    lemma_ids_of_jv_prefix_none(arr_v(xs@), i + 1);
                }
                return None;
            },
        };
        ids.push(NodeId::new(n));
        proof {
            assert(arr_v(xs@).take(i as int).push(arr_v(xs@)[i as int]) =~= arr_v(xs@).take(
                i + 1,
            ));
            lemma_ids_of_jv_snoc(arr_v(xs@).take(i as int), arr_v(xs@)[i as int]);
            assert(ids_of_jv(arr_v(xs@).take(i + 1))->Some_0 =~= crate::msg::ids_v(ids@));
        }
        i += 1;
    }
    proof {
        assert(arr_v(xs@).take(xs@.len() as int) =~= arr_v(xs@));
    }
    Some(ids)
}

proof fn lemma_ids_of_jv_prefix_none(s: Seq<Jv>, i: int)
    requires
        0 <= i <= s.len(),
        ids_of_jv(s.take(i)) is None,
    ensures
        ids_of_jv(s) is None,
    decreases s.len() - i,
{
    if i < s.len() {
        assert(s.take(i).push(s[i]) =~= s.take(i + 1));
        lemma_ids_of_jv_snoc(s.take(i), s[i]);
        lemma_ids_of_jv_prefix_none(s, i + 1);
    } else {
        assert(s.take(i) =~= s);
    }
}

/// Reads an optional correlation id out of a body.
fn get_opt_id(body: &Vec<(String, Json)>, key: &String) -> (r: Option<Option<MsgId>>)
    ensures
        match r {
            Some(m) => opt_id_jv(jv_get(fields_v(body@), key@)) == Some(opt_id_v(m)),
            None => opt_id_jv(jv_get(fields_v(body@), key@)) is None,
        },
{
    match obj_get(body, key) {
        None => Some(None),
        Some(Json::Null) => Some(None),
        Some(Json::Int(n)) => Some(Some(MsgId::new(*n))),
        Some(_) => None,
    }
}

/// Whether a decoded tag equals the given literal.
pub fn tag_is(t: &String, s: &str) -> (r: bool)
    ensures
        r == (t@ == s@),
{
    *t == String::from_str(s)
}

impl JsonDecode for crate::msg::Init {
    open spec fn spec_decode(fields: Seq<(Seq<char>, Jv)>) -> Option<crate::msg::InitV> {
        match jv_get(fields, "type"@) {
            Some(Jv::Str(t)) => if t == "init"@ {
                match (jv_get(fields, "node_id"@), jv_get(fields, "node_ids"@)) {
                    (Some(Jv::Str(nid)), Some(Jv::Arr(xs))) => match ids_of_jv(xs) {
                        Some(ns) => Some(crate::msg::InitV { node_id: nid, node_ids: ns }),
                        None => None,
                    },
                    _ => None,
                }
            } else {
                None
            },
            _ => None,
        }
    }

    fn decode_fields(fields: &Vec<(String, Json)>) -> (r: Option<Self>) {
        let t = match get_str(fields, &String::from_str("type")) {
            Some(t) => t,
            None => {
                return None;
            },
        };
        if !tag_is(t, "init") {
            return None;
        }
        let nid = match get_str(fields, &String::from_str("node_id")) {
            Some(s) => s.clone(),
            None => {
                return None;
            },
        };
        let xs = match get_arr(fields, &String::from_str("node_ids")) {
            Some(xs) => xs,
            None => {
                return None;
            },
        };
        let ids = match decode_ids(xs) {
            Some(ids) => ids,
            None => {
                return None;
            },
        };
        Some(crate::msg::Init::Init { node_id: NodeId::new(nid), node_ids: ids })
    }
}

impl JsonEncode for crate::msg::InitOk {
    open spec fn fields_of(pv: crate::msg::InitOk) -> Seq<(Seq<char>, Jv)> {
        seq![("type"@, Jv::Str("init_ok"@))]
    }

    fn encode_fields(&self) -> (r: Vec<(String, Json)>) {
        let mut r: Vec<(String, Json)> = Vec::new();
        r.push((String::from_str("type"), Json::Str(String::from_str("init_ok"))));
        proof {
            assert(fields_v(r@) =~= Self::fields_of(self@));
        }
        r
    }
}

impl JsonEncode for crate::msg::Error {
    open spec fn fields_of(pv: crate::msg::ErrorV) -> Seq<(Seq<char>, Jv)> {
        seq![
            ("type"@, Jv::Str("error"@)),
            ("code"@, Jv::Int(pv.code)),
            (
                "text"@,
                match pv.text {
                    Some(t) => Jv::Str(t),
                    None => Jv::Null,
                },
            ),
        ]
    }

    fn encode_fields(&self) -> (r: Vec<(String, Json)>) {
        let mut r: Vec<(String, Json)> = Vec::new();
        match self {
            crate::msg::Error::Error { code, text } => {
                r.push((String::from_str("type"), Json::Str(String::from_str("error"))));
                r.push((String::from_str("code"), Json::Int(*code)));
                r.push(
                    (
                        String::from_str("text"),
                        match text {
                            Some(t) => Json::Str(t.clone()),
                            None => Json::Null,
                        },
                    ),
                );
            },
        }
        proof {
            assert(fields_v(r@) =~= Self::fields_of(self@));
        }
        r
    }
}

impl JsonDecode for crate::msg::EmptyBody {
    open spec fn spec_decode(fields: Seq<(Seq<char>, Jv)>) -> Option<crate::msg::EmptyBody> {
        Some(crate::msg::EmptyBody {  })
    }

    fn decode_fields(fields: &Vec<(String, Json)>) -> (r: Option<Self>) {
        Some(crate::msg::EmptyBody {  })
    }
}

impl<P: JsonEncode> Message<P> {
    /// The tree this envelope rides the wire as.
    pub fn to_json(&self) -> (r: Json)
        ensures
            r@ == msg_jv::<P>(self@),
    {
        let mut body: Vec<(String, Json)> = Vec::new();
        body.push(
            (
                String::from_str("msg_id"),
                match self.id() {
                    Some(i) => Json::Int(i.as_u64()),
                    None => Json::Null,
                },
            ),
        );
        body.push(
            (
                String::from_str("in_reply_to"),
                match self.in_response_to() {
                    Some(i) => Json::Int(i.as_u64()),
                    None => Json::Null,
                },
            ),
        );
        let mut pf = self.payload().encode_fields();
        body.append(&mut pf);
        let ghost bodyv = body@;
        proof {
            assert(bodyv.len() == 2 + P::fields_of(self@.payload).len());
        }
        let body_json = Json::Obj(body);
        let ghost bf = body_jv(self@.msg_id, self@.in_reply_to, P::fields_of(self@.payload));
        proof {
            obj_view_fact(body_json);
            assert(fields_v(bodyv) =~= bf);
            assert(body_json@ == Jv::Obj(bf));
        }
        let mut top: Vec<(String, Json)> = Vec::new();
        top.push((String::from_str("src"), Json::Str(self.src().name().clone())));
        top.push((String::from_str("dest"), Json::Str(self.dst().name().clone())));
        top.push((String::from_str("body"), body_json));
        let r = Json::Obj(top);
        proof {
            obj_view_fact(r);
            assert(fields_v(top@) =~= seq![
                ("src"@, Jv::Str(self@.src)),
                ("dest"@, Jv::Str(self@.dst)),
                ("body"@, Jv::Obj(bf)),
            ]);
            assert(r@ == envelope_jv(self@.src, self@.dst, bf));
        }
        r
    }
}

impl<P: JsonDecode> Message<P> {
    /// The envelope, if any, that a tree decodes to.
    pub fn from_json(j: &Json) -> (r: Option<Message<P>>)
        ensures
            match r {
                Some(m) => spec_decode_msg::<P>(j@) == Some(m@),
                None => spec_decode_msg::<P>(j@) is None,
            },
    {
        let top = match j {
            Json::Obj(fs) => fs,
            _ => {
                return None;
            },
        };
        proof {
            obj_view_fact(*j);
        }
        let src = match get_str(top, &String::from_str("src")) {
            Some(s) => s.clone(),
            None => {
                return None;
            },
        };
        let dst = match get_str(top, &String::from_str("dest")) {
            Some(s) => s.clone(),
            None => {
                return None;
            },
        };
        let body = match get_obj(top, &String::from_str("body")) {
            Some(fs) => fs,
            None => {
                return None;
            },
        };

        let msg_id = match get_opt_id(body, &String::from_str("msg_id")) {
            Some(m) => m,
            None => {
                return None;
            },
        };
        let in_reply_to = match get_opt_id(body, &String::from_str("in_reply_to")) {
            Some(m) => m,
            None => {
                return None;
            },
        };
        let payload = match P::decode_fields(body) {
            Some(p) => p,
            None => {
                return None;
            },
        };
        Some(Message::assemble(NodeId::new(src), NodeId::new(dst), msg_id, in_reply_to, payload))
    }
}

} // verus!
