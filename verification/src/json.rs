//! The tree shape of one line of the wire protocol, and the trusted boundary
//! that turns a line of text into such a tree and back.

use vstd::prelude::*;

verus! {

/// Mathematical model of a JSON tree: strings and keys are character
/// sequences, numbers are unsigned 64-bit integers.
pub enum Jv {
    Null,
    Bool(bool),
    Int(u64),
    Str(Seq<char>),
    Arr(Seq<Jv>),
    Obj(Seq<(Seq<char>, Jv)>),
}

/// Executable JSON tree. Only the shapes the protocol of this crate uses are
/// represented: every number on the wire is an unsigned 64-bit integer.
pub enum Json {
    Null,
    Bool(bool),
    Int(u64),
    Str(String),
    Arr(Vec<Json>),
    Obj(Vec<(String, Json)>),
}

/// The model of a list of object fields: each key and value by its view.
pub open spec fn fields_v(s: Seq<(String, Json)>) -> Seq<(Seq<char>, Jv)> {
    Seq::new(s.len(), |i: int| (s[i].0@, s[i].1@))
}

impl View for Json {
    type V = Jv;

    open spec fn view(&self) -> Jv
        decreases *self,
    {
        match self {
            Json::Null => Jv::Null,
            Json::Bool(b) => Jv::Bool(*b),
            Json::Int(n) => Jv::Int(*n),
            Json::Str(s) => Jv::Str(s@),
            Json::Arr(xs) => Jv::Arr(
                Seq::new(xs@.len(), |i: int| if 0 <= i < xs@.len() { xs@[i]@ } else { Jv::Null }),
            ),
            Json::Obj(fs) => Jv::Obj(
                Seq::new(
                    fs@.len(),
                    |i: int| if 0 <= i < fs@.len() {
                        (fs@[i].0@, fs@[i].1@)
                    } else {
                        (Seq::empty(), Jv::Null)
                    },
                ),
            ),
        }
    }
}

/// Looks a key up in a field list: the value of the first field bearing it.
pub open spec fn jv_get(fields: Seq<(Seq<char>, Jv)>, key: Seq<char>) -> Option<Jv>
    decreases fields.len(),
{
    if fields.len() == 0 {
        None
    } else if fields[0].0 == key {
        Some(fields[0].1)
    } else {
        jv_get(fields.drop_first(), key)
    }
}

proof fn lemma_jv_get_skip(fields: Seq<(Seq<char>, Jv)>, key: Seq<char>, i: int)
    requires
        0 <= i <= fields.len(),
        forall|k: int| 0 <= k < i ==> fields[k].0 != key,
    ensures
        jv_get(fields, key) == jv_get(fields.skip(i), key),
    decreases i,
{
    if i > 0 {
        assert(fields[0].0 != key);
        let tail = fields.skip(1);
        assert(fields.drop_first() =~= tail);
        assert forall|k: int| 0 <= k < i - 1 implies tail[k].0 != key by {
            assert(fields[k + 1].0 != key);
        }
        lemma_jv_get_skip(tail, key, i - 1);
        assert(tail.skip(i - 1) =~= fields.skip(i));
    } else {
        assert(fields.skip(0) =~= fields);
    }
}

/// Finds the first field of `fields` whose key equals `key`.
pub fn obj_get<'a>(fields: &'a Vec<(String, Json)>, key: &String) -> (r: Option<&'a Json>)
    ensures
        match r {
            Some(j) => jv_get(fields_v(fields@), key@) == Some(j@),
            None => jv_get(fields_v(fields@), key@) is None,
        },
{
    let ghost fv = fields_v(fields@);
    let mut i: usize = 0;
    while i < fields.len()
        invariant
            0 <= i <= fields.len(),
            fv == fields_v(fields@),
            forall|k: int| 0 <= k < i ==> fv[k].0 != key@,
        decreases fields.len() - i,
    {
        if fields[i].0 == *key {
            proof {
                lemma_jv_get_skip(fv, key@, i as int);
                assert(fv.skip(i as int)[0] == fv[i as int]);
                assert(fv[i as int].1 == fields@[i as int].1@);
            }
            return Some(&fields[i].1);
        }
        i += 1;
    }
    proof {
        lemma_jv_get_skip(fv, key@, fields@.len() as int);
        assert(fv.skip(fields@.len() as int) =~= Seq::empty());
    }
    None
}

/// What `parse_json` returns for a given line, by its view; `None` where the
/// line is not JSON that this crate's tree shape can hold.
pub uninterp spec fn json_of(s: Seq<char>) -> Option<Jv>;

/// What `json_to_string` prints for a given tree.
pub uninterp spec fn json_text(j: Jv) -> Seq<char>;

/// The tree type of the serde_json crate, opaque to this crate's proofs: it
/// is only carried between the two conversion halves below.
#[verifier::external_type_specification]
#[verifier::external_body]
pub struct ExValue(serde_json::Value);

/// The field map type of the serde_json crate, opaque to this crate's
/// proofs: it only appears in the conversion halves below.
#[verifier::external_type_specification]
#[verifier::external_body]
#[verifier::reject_recursive_types(K)]
#[verifier::reject_recursive_types(V)]
pub struct ExMap<K, V>(serde_json::Map<K, V>);

/// Conversion half of `parse_json`: rebuilds a parsed `serde_json::Value` as
/// a `Json` tree, refusing numbers that are not unsigned 64-bit integers.
#[verifier::external_body]
fn json_from_value(v: &serde_json::Value) -> Option<Json> {
    match v {
        serde_json::Value::Null => Some(Json::Null),
        serde_json::Value::Bool(b) => Some(Json::Bool(*b)),
        serde_json::Value::Number(n) => Some(Json::Int(n.as_u64()?)),
        serde_json::Value::String(s) => Some(Json::Str(s.clone())),
        serde_json::Value::Array(xs) => Some(Json::Arr(json_from_values(xs)?)),
        serde_json::Value::Object(m) => Some(Json::Obj(json_from_entries(m)?)),
    }
}

/// Conversion half of `parse_json` for arrays: each element in order.
#[verifier::external_body]
fn json_from_values(xs: &Vec<serde_json::Value>) -> Option<Vec<Json>> {
    xs.iter().map(json_from_value).collect()
}

/// Conversion half of `parse_json` for objects: each field in map order.
#[verifier::external_body]
fn json_from_entries(m: &serde_json::Map<String, serde_json::Value>) -> Option<
    Vec<(String, Json)>,
> {
    m.iter().map(|(k, x)| Some((k.clone(), json_from_value(x)?))).collect()
}

/// Conversion half of `json_to_string`: rebuilds a `Json` tree as a
/// `serde_json::Value`.
#[verifier::external_body]
fn json_to_value(j: &Json) -> serde_json::Value {
    match j {
        Json::Null => serde_json::Value::Null,
        Json::Bool(b) => serde_json::Value::Bool(*b),
        Json::Int(n) => serde_json::Value::Number(serde_json::Number::from(*n)),
        Json::Str(s) => serde_json::Value::String(s.clone()),
        Json::Arr(xs) => serde_json::Value::Array(xs.iter().map(json_to_value).collect()),
        Json::Obj(fs) => serde_json::Value::Object(
            fs.iter().map(|f| (f.0.clone(), json_to_value(&f.1))).collect(),
        ),
    }
}

/// Relies on `serde_json::from_str::<serde_json::Value>`: whether a line
/// parses, and to what tree, is a function of its characters alone.
#[verifier::external_body]
pub fn parse_json(s: &str) -> (r: Option<Json>)
    ensures
        match r {
            Some(j) => json_of(s@) == Some(j@),
            None => json_of(s@) is None,
        },
{
    match serde_json::from_str::<serde_json::Value>(s) {
        Ok(v) => json_from_value(&v),
        Err(_) => None,
    }
}

/// Relies on `serde_json::to_string`: the text printed for a tree is a
/// function of the tree alone (printing a `serde_json::Value` cannot fail).
#[verifier::external_body]
pub fn json_to_string(j: &Json) -> (r: String)
    ensures
        r@ == json_text(j@),
{
    match serde_json::to_string(&json_to_value(j)) {
        Ok(s) => s,
        Err(_) => String::new(),
    }
}

} // verus!
