//! A plain model of a parsed JSON document, and the reads that the library
//! makes of it, stated as `serde_json::Value`'s accessors behave.
use vstd::prelude::*;

use crate::text::str_eq;

verus! {

/// A JSON value. A number keeps its value when it is an unsigned integer
/// (what `Number::as_u64` gives) and `None` otherwise; an object keeps its
/// members, each name once, in the parser's order.
#[derive(Debug)]
pub enum Json {
    Null,
    Bool(bool),
    Num(Option<u64>),
    Str(String),
    Arr(Vec<Json>),
    Obj(Vec<(String, Json)>),
}

/// The plain value of a [`Json`].
pub enum JsonView {
    Null,
    Bool(bool),
    Num(Option<u64>),
    Str(Seq<char>),
    Arr(Seq<JsonView>),
    Obj(Seq<(Seq<char>, JsonView)>),
}

/// The plain value of a JSON value.
pub open spec fn json_view(j: Json) -> JsonView
    decreases j,
{
    match j {
        Json::Null => JsonView::Null,
        Json::Bool(b) => JsonView::Bool(b),
        Json::Num(n) => JsonView::Num(n),
        Json::Str(s) => JsonView::Str(s@),
        Json::Arr(v) => JsonView::Arr(items_view(v@)),
        Json::Obj(v) => JsonView::Obj(members_view(v@)),
    }
}

/// The plain values of an array's items.
pub open spec fn items_view(s: Seq<Json>) -> Seq<JsonView>
    decreases s,
{
    if s.len() == 0 {
        seq![]
    } else {
        items_view(s.drop_last()).push(json_view(s.last()))
    }
}

/// The plain values of an object's members.
pub open spec fn members_view(s: Seq<(String, Json)>) -> Seq<(Seq<char>, JsonView)>
    decreases s,
{
    if s.len() == 0 {
        seq![]
    } else {
        members_view(s.drop_last()).push((s.last().0@, json_view(s.last().1)))
    }
}

/// The plain value of an optional JSON value.
pub open spec fn opt_json_view(o: Option<Json>) -> Option<JsonView> {
    match o {
        Some(j) => Some(json_view(j)),
        None => None,
    }
}

/// The plain value of an optional reference to a JSON value.
pub open spec fn opt_ref_view(o: Option<&Json>) -> Option<JsonView> {
    match o {
        Some(j) => Some(json_view(*j)),
        None => None,
    }
}

proof fn lemma_members_view(s: Seq<(String, Json)>)
    ensures
        members_view(s).len() == s.len(),
        forall|i: int| 0 <= i < s.len() ==> #[trigger] members_view(s)[i] == (s[i].0@, json_view(s[i].1)),
    decreases s.len(),
{
    if s.len() > 0 {
        lemma_members_view(s.drop_last());
        assert forall|i: int| 0 <= i < s.len() implies #[trigger] members_view(s)[i] == (s[i].0@, json_view(s[i].1)) by {
            if i < s.len() - 1 {
                assert(s.drop_last()[i] == s[i]);
            }
        }
    }
}

proof fn lemma_items_view(s: Seq<Json>)
    ensures
        items_view(s).len() == s.len(),
        forall|i: int| 0 <= i < s.len() ==> #[trigger] items_view(s)[i] == json_view(s[i]),
    decreases s.len(),
{
    if s.len() > 0 {
        lemma_items_view(s.drop_last());
        assert forall|i: int| 0 <= i < s.len() implies #[trigger] items_view(s)[i] == json_view(s[i]) by {
            if i < s.len() - 1 {
                assert(s.drop_last()[i] == s[i]);
            }
        }
    }
}

/// The value of the first member named `key` from position `i` on.
pub open spec fn member_from(ps: Seq<(Seq<char>, JsonView)>, key: Seq<char>, i: int) -> Option<JsonView>
    decreases ps.len() - i,
{
    if i < 0 || i >= ps.len() {
        None
    } else if ps[i].0 == key {
        Some(ps[i].1)
    } else {
        member_from(ps, key, i + 1)
    }
}

/// `Value::get` with a name: the member named `key` of an object, `None`
/// when there is none or the value is not an object.
pub open spec fn member_of(v: JsonView, key: Seq<char>) -> Option<JsonView> {
    match v {
        JsonView::Obj(ps) => member_from(ps, key, 0),
        _ => None,
    }
}

/// `Value[key]`: the member named `key`, or null.
pub open spec fn index_of(v: JsonView, key: Seq<char>) -> JsonView {
    match member_of(v, key) {
        Some(x) => x,
        None => JsonView::Null,
    }
}

/// `Value::get` with a position: the item at `i` of an array, `None` when
/// there is none or the value is not an array.
pub open spec fn item_of(v: JsonView, i: int) -> Option<JsonView> {
    match v {
        JsonView::Arr(xs) => if 0 <= i < xs.len() {
            Some(xs[i])
        } else {
            None
        },
        _ => None,
    }
}

/// `Value::as_u64`.
pub open spec fn u64_of(v: JsonView) -> Option<u64> {
    match v {
        JsonView::Num(n) => n,
        _ => None,
    }
}

/// `Value::as_str`.
pub open spec fn str_of(v: JsonView) -> Option<Seq<char>> {
    match v {
        JsonView::Str(s) => Some(s),
        _ => None,
    }
}

/// What `serde_json::from_str::<serde_json::Value>` parses a text to, as a
/// plain JSON value; `None` when the text is not JSON.
pub uninterp spec fn json_of(text: Seq<char>) -> Option<JsonView>;

/// Parses a text with `serde_json::from_str` into a `serde_json::Value` and
/// converts it, variant for variant, into a [`Json`]. The claim is that the
/// result is the value that `json_of` names for the text: a function of the
/// text alone.
#[verifier::external_body]
pub(crate) fn parse_json(text: &str) -> (r: Option<Json>)
    ensures
        opt_json_view(r) == json_of(text@),
{
    serde_json::from_str::<serde_json::Value>(text).ok().map(|v| json_from_value(&v))
}

/// Converts a `serde_json::Value` into a [`Json`], one arm per variant: an
/// unsigned integer keeps its value, arrays and objects are converted item
/// by item. Only [`parse_json`] uses it.
#[verifier::external_body]
fn json_from_value(v: &serde_json::Value) -> Json {
    match v {
        serde_json::Value::Null => Json::Null,
        serde_json::Value::Bool(b) => Json::Bool(*b),
        serde_json::Value::Number(n) => Json::Num(n.as_u64()),
        serde_json::Value::String(s) => Json::Str(s.clone()),
        serde_json::Value::Array(a) => Json::Arr(a.iter().map(json_from_value).collect()),
        serde_json::Value::Object(m) => Json::Obj(m.iter().map(|(k, x)| (k.clone(), json_from_value(x))).collect()),
    }
}

/// The member named `key` of an object (`Value::get`).
pub fn get_member<'a>(v: &'a Json, key: &str) -> (r: Option<&'a Json>)
    ensures
        opt_ref_view(r) == member_of(json_view(*v), key@),
{
    match v {
        Json::Obj(ps) => {
            let ghost pv = members_view(ps@);
            proof {
                lemma_members_view(ps@);
            }
            assert(json_view(*v) == JsonView::Obj(pv));
            let mut i: usize = 0;
            while i < ps.len()
                invariant
                    0 <= i <= ps.len(),
                    pv == members_view(ps@),
                    json_view(*v) == JsonView::Obj(pv),
                    pv.len() == ps@.len(),
                    forall|j: int| 0 <= j < ps@.len() ==> #[trigger] pv[j] == (ps@[j].0@, json_view(ps@[j].1)),
                    member_from(pv, key@, 0) == member_from(pv, key@, i as int),
                decreases ps.len() - i,
            {
                assert(pv[i as int] == (ps@[i as int].0@, json_view(ps@[i as int].1)));
                if str_eq(ps[i].0.as_str(), key) {
                    assert(json_view(*v) == JsonView::Obj(pv));
                    assert(member_from(pv, key@, i as int) == Some(json_view(ps@[i as int].1)));
                    return Some(&ps[i].1);
                }
                i += 1;
            }
            None
        },
        _ => None,
    }
}

/// The item at position `i` of an array (`Value::get`).
pub fn get_item(v: &Json, i: usize) -> (r: Option<&Json>)
    ensures
        opt_ref_view(r) == item_of(json_view(*v), i as int),
{
    match v {
        Json::Arr(xs) => {
            proof {
                lemma_items_view(xs@);
            }
            if i < xs.len() {
                Some(&xs[i])
            } else {
                None
            }
        },
        _ => None,
    }
}

/// The value of an unsigned integer (`Value::as_u64`).
pub fn as_u64(v: &Json) -> (r: Option<u64>)
    ensures
        r == u64_of(json_view(*v)),
{
    match v {
        Json::Num(n) => *n,
        _ => None,
    }
}

/// The text of a string (`Value::as_str`).
pub fn as_str(v: &Json) -> (r: Option<&str>)
    ensures
        match r {
            Some(s) => str_of(json_view(*v)) == Some(s@),
            None => str_of(json_view(*v)) is None,
        },
{
    match v {
        Json::Str(s) => Some(s.as_str()),
        _ => None,
    }
}

} // verus!
