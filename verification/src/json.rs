//! JSON values, and their pretty text as serde_json writes it.
use vstd::prelude::*;

verus! {

/// A JSON value; object members keep their order.
pub enum Json {
    Null,
    Bool(bool),
    Int(i64),
    Uint(u64),
    Str(String),
    Array(Vec<Json>),
    Object(Vec<(String, Json)>),
}

/// What a JSON value holds.
#[verifier::ext_equal]
pub enum JsonTree {
    Null,
    Bool(bool),
    Int(i64),
    Uint(u64),
    Str(Seq<char>),
    Array(Seq<JsonTree>),
    Object(Seq<(Seq<char>, JsonTree)>),
}

/// What `j` holds.
pub open spec fn tree(j: Json) -> JsonTree
    decreases j,
{
    match j {
        Json::Null => JsonTree::Null,
        Json::Bool(b) => JsonTree::Bool(b),
        Json::Int(n) => JsonTree::Int(n),
        Json::Uint(n) => JsonTree::Uint(n),
        Json::Str(s) => JsonTree::Str(s@),
        Json::Array(v) => JsonTree::Array(Seq::new(v@.len(), |i: int| if 0 <= i < v@.len() { tree(v@[i]) } else { JsonTree::Null })),
        Json::Object(m) => JsonTree::Object(Seq::new(
            m@.len(),
            |i: int| if 0 <= i < m@.len() { (m@[i].0@, tree(m@[i].1)) } else { (Seq::empty(), JsonTree::Null) },
        )),
    }
}

/// The members of an object, each key with what its value holds.
pub open spec fn members_tree(m: Seq<(String, Json)>) -> Seq<(Seq<char>, JsonTree)> {
    Seq::new(m.len(), |i: int| (m[i].0@, tree(m[i].1)))
}

/// What an object holds is its members' keys and what their values hold.
pub proof fn lemma_object_tree(m: Vec<(String, Json)>)
    ensures
        tree(Json::Object(m)) == JsonTree::Object(members_tree(m@)),
{
    let t = tree(Json::Object(m));
    assert(t is Object);
    assert(t->Object_0 =~= members_tree(m@));
}

/// What the items of an array hold.
pub open spec fn items_tree(v: Seq<Json>) -> Seq<JsonTree> {
    Seq::new(v.len(), |i: int| tree(v[i]))
}

/// What an array holds is what its items hold.
pub proof fn lemma_array_tree(v: Vec<Json>)
    ensures
        tree(Json::Array(v)) == JsonTree::Array(items_tree(v@)),
{
    let t = tree(Json::Array(v));
    assert(t is Array);
    assert(t->Array_0 =~= items_tree(v@));
}

impl View for Json {
    type V = JsonTree;

    open spec fn view(&self) -> JsonTree {
        tree(*self)
    }
}

/// The pretty text that serde_json writes for a value (two-space indents,
/// members in order; an object key given twice is written once, in its
/// first place, with its last value, as serde_json's map keeps it); its
/// exact layout is serde_json's and is not restated.
pub uninterp spec fn pretty_text(v: JsonTree) -> Seq<u8>;

/// `serde_json::Value`, a JSON value of serde_json; opaque here.
#[verifier::external_type_specification]
#[verifier::external_body]
pub struct ExJsonValue(serde_json::Value);

/// The serde_json value of `j`, one variant for one variant (a recursive
/// conversion for `to_pretty`, which is why it is a function of its own);
/// no contract.
#[verifier::external_body]
fn value_of(j: &Json) -> serde_json::Value {
    match j {
        Json::Null => serde_json::Value::Null,
        Json::Bool(b) => serde_json::Value::Bool(*b),
        Json::Int(n) => serde_json::Value::from(*n),
        Json::Uint(n) => serde_json::Value::from(*n),
        Json::Str(s) => serde_json::Value::String(s.clone()),
        Json::Array(v) => serde_json::Value::Array(v.iter().map(value_of).collect()),
        Json::Object(m) => serde_json::Value::Object(m.iter().map(|(k, v)| (k.clone(), value_of(v))).collect()),
    }
}

/// The pretty JSON text of `j` (`serde_json::to_vec_pretty` on the
/// serde_json value of `j`, built by `value_of`). The text is named by
/// `pretty_text`. Serializing a `serde_json::Value` into a `Vec<u8>` never
/// fails: its serializer has no error of its own, every map key is a
/// string, and writing to a vector cannot fail; the error arm only
/// converts serde_json's message.
#[verifier::external_body]
pub(crate) fn to_pretty(j: &Json) -> (r: Result<Vec<u8>, String>)
    ensures
        r is Ok,
        r->Ok_0@ == pretty_text(j@),
{
    serde_json::to_vec_pretty(&value_of(j)).map_err(|e| e.to_string())
}

/// The value of the first member named `key`.
pub open spec fn member_value(ms: Seq<(Seq<char>, JsonTree)>, key: Seq<char>) -> Option<JsonTree>
    decreases ms.len(),
{
    if ms.len() == 0 {
        None
    } else if ms[0].0 == key {
        Some(ms[0].1)
    } else {
        member_value(ms.drop_first(), key)
    }
}

/// The value under `key` of a JSON object, none for anything else.
pub open spec fn field_of(t: JsonTree, key: Seq<char>) -> Option<JsonTree> {
    match t {
        JsonTree::Object(ms) => member_value(ms, key),
        _ => None,
    }
}

/// The first member named `key` is found.
pub proof fn lemma_member_at(ms: Seq<(Seq<char>, JsonTree)>, k: int, key: Seq<char>)
    requires
        0 <= k < ms.len(),
        ms[k].0 == key,
        forall|j: int| 0 <= j < k ==> #[trigger] ms[j].0 != key,
    ensures
        member_value(ms, key) == Some(ms[k].1),
    decreases k,
{
    if k > 0 {
        let r = ms.drop_first();
        assert forall|j: int| 0 <= j < k - 1 implies #[trigger] r[j].0 != key by {
            assert(r[j] == ms[j + 1]);
        }
        assert(ms[0].0 != key);
        lemma_member_at(r, k - 1, key);
    }
}

} // verus!
