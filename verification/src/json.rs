//! JSON documents as plain values: what the parser makes of bytes, and the
//! lookups that replies and addon results are read with.
use vstd::prelude::*;
use crate::text::{decimal, push_decimal, string_of, text_eq};

verus! {

#[verifier::external_type_specification]
#[verifier::external_body]
pub struct ExJsonValue(serde_json::Value);

/// A JSON document. A number keeps the text it is written with; an object
/// keeps its members in order.
#[derive(Debug, PartialEq)]
pub enum Json {
    Null,
    Bool(bool),
    Number(String),
    Text(String),
    List(Vec<Json>),
    Object(Vec<(String, Json)>),
}

pub enum JsonView {
    Null,
    Bool(bool),
    Number(Seq<char>),
    Text(Seq<char>),
    List(Seq<JsonView>),
    Object(Seq<(Seq<char>, JsonView)>),
}

pub open spec fn json_view(j: Json) -> JsonView
    decreases j,
{
    match j {
        Json::Null => JsonView::Null,
        Json::Bool(b) => JsonView::Bool(b),
        Json::Number(n) => JsonView::Number(n@),
        Json::Text(t) => JsonView::Text(t@),
        Json::List(items) => JsonView::List(
            Seq::new(
                items@.len(),
                |i: int|
                    {
                        if 0 <= i < items@.len() {
                            json_view(items@[i])
                        } else {
                            JsonView::Null
                        }
                    },
            ),
        ),
        Json::Object(fields) => JsonView::Object(
            Seq::new(
                fields@.len(),
                |i: int|
                    {
                        if 0 <= i < fields@.len() {
                            (fields@[i].0@, json_view(fields@[i].1))
                        } else {
                            (Seq::empty(), JsonView::Null)
                        }
                    },
            ),
        ),
    }
}

impl View for Json {
    type V = JsonView;

    open spec fn view(&self) -> JsonView {
        json_view(*self)
    }
}

/// What serde_json's parser reads from `bytes`: the one JSON document they
/// hold, or `None` when they hold none (or anything after it but white
/// space).
pub uninterp spec fn json_of(bytes: Seq<u8>) -> Option<JsonView>;

/// serde_json's `Value`, one for one: each of its six kinds becomes the kind
/// of the same name, a number is kept as serde_json writes it, and arrays and
/// objects keep their order.
#[verifier::external_body]
fn json_from_value(v: serde_json::Value) -> Json {
    match v {
        serde_json::Value::Null => Json::Null,
        serde_json::Value::Bool(b) => Json::Bool(b),
        serde_json::Value::Number(n) => Json::Number(n.to_string()),
        serde_json::Value::String(t) => Json::Text(t),
        serde_json::Value::Array(a) => Json::List(a.into_iter().map(json_from_value).collect()),
        serde_json::Value::Object(m) => Json::Object(m.into_iter().map(|(k, x)| (k, json_from_value(x))).collect()),
    }
}

/// serde_json's `from_slice` into a `Value`, read as a `Json`: the document
/// the bytes hold, or `None` when the parser refuses them.
#[verifier::external_body]
pub(crate) fn parse_json(bytes: &[u8]) -> (r: Option<Json>)
    ensures
        match r {
            Some(j) => json_of(bytes@) == Some(j@),
            None => json_of(bytes@) is None,
        },
{
    serde_json::from_slice::<serde_json::Value>(bytes).ok().map(json_from_value)
}

/// The value of the first member named `key`.
pub open spec fn member(fields: Seq<(Seq<char>, JsonView)>, key: Seq<char>) -> Option<JsonView>
    decreases fields.len(),
{
    if fields.len() == 0 {
        None
    } else if fields[0].0 == key {
        Some(fields[0].1)
    } else {
        member(fields.drop_first(), key)
    }
}

/// `v[key]`: the member of an object, or null.
pub open spec fn at_key(v: JsonView, key: Seq<char>) -> JsonView {
    match v {
        JsonView::Object(fields) => match member(fields, key) {
            Some(x) => x,
            None => JsonView::Null,
        },
        _ => JsonView::Null,
    }
}

/// `v[i]`: the item of a list, or null.
pub open spec fn at_index(v: JsonView, i: int) -> JsonView {
    match v {
        JsonView::List(items) => if 0 <= i < items.len() {
            items[i]
        } else {
            JsonView::Null
        },
        _ => JsonView::Null,
    }
}

/// The items of a list; nothing for any other value.
pub open spec fn items_of(v: JsonView) -> Seq<JsonView> {
    match v {
        JsonView::List(items) => items,
        _ => Seq::empty(),
    }
}

/// The text of a string value.
pub open spec fn text_of(v: JsonView) -> Option<Seq<char>> {
    match v {
        JsonView::Text(t) => Some(t),
        _ => None,
    }
}

pub open spec fn is_object(v: JsonView) -> bool {
    v is Object
}

/// The member `key` of an object (`None` stands for null).
pub fn field<'a>(j: &'a Json, key: &str) -> (r: Option<&'a Json>)
    ensures
        match r {
            Some(x) => at_key(j@, key@) == x@,
            None => at_key(j@, key@) == JsonView::Null,
        },
{
    match j {
        Json::Object(fields) => {
            let ghost fv = match j@ {
                JsonView::Object(f) => f,
                _ => Seq::empty(),
            };
            assert(fv.len() == fields@.len());
            assert(fv.skip(0) =~= fv);
            assert(j@ == JsonView::Object(fv));
            let mut i: usize = 0;
            while i < fields.len()
                invariant
                    i <= fields@.len(),
                    fv.len() == fields@.len(),
                    j@ == JsonView::Object(fv),
                    forall|k: int|
                        0 <= k < fv.len() ==> #[trigger] fv[k] == (fields@[k].0@, fields@[k].1@),
                    member(fv, key@) == member(fv.skip(i as int), key@),
                decreases fields@.len() - i,
            {
                assert(fv.skip(i as int).drop_first() =~= fv.skip(i + 1));
                assert(fv.skip(i as int)[0] == fv[i as int]);
                if text_eq(fields[i].0.as_str(), key) {
                    assert(fv[i as int] == (fields@[i as int].0@, fields@[i as int].1@));
                    assert(member(fv.skip(i as int), key@) == Some(fields@[i as int].1@));
                    return Some(&fields[i].1);
                }
                i = i + 1;
            }
            assert(fv.skip(i as int).len() == 0);
            None
        },
        _ => None,
    }
}

/// The `i`th item of a list (`None` stands for null).
pub fn item<'a>(j: &'a Json, i: usize) -> (r: Option<&'a Json>)
    ensures
        match r {
            Some(x) => at_index(j@, i as int) == x@,
            None => at_index(j@, i as int) == JsonView::Null,
        },
{
    match j {
        Json::List(items) => if i < items.len() {
            Some(&items[i])
        } else {
            None
        },
        _ => None,
    }
}

/// The items of a list.
pub fn list_items<'a>(j: &'a Json) -> (r: Option<&'a Vec<Json>>)
    ensures
        match r {
            Some(v) => items_of(j@) =~= Seq::new(v@.len(), |k: int| v@[k]@),
            None => items_of(j@) == Seq::<JsonView>::empty(),
        },
{
    match j {
        Json::List(items) => Some(items),
        _ => None,
    }
}

/// The text of a string value.
pub fn text_value<'a>(j: &'a Json) -> (r: Option<&'a str>)
    ensures
        match r {
            Some(t) => text_of(j@) == Some(t@),
            None => text_of(j@) is None,
        },
{
    match j {
        Json::Text(t) => Some(t.as_str()),
        _ => None,
    }
}

/// A looked-up value, with `None` standing for null.
pub open spec fn null_or(o: Option<&Json>) -> JsonView {
    match o {
        Some(x) => x@,
        None => JsonView::Null,
    }
}

/// The views of the items of a list.
pub open spec fn json_views(items: Seq<Json>) -> Seq<JsonView> {
    Seq::new(items.len(), |k: int| items[k]@)
}

/// `v[key]` on a looked-up value.
pub fn get<'a>(j: Option<&'a Json>, key: &str) -> (r: Option<&'a Json>)
    ensures
        null_or(r) == at_key(null_or(j), key@),
{
    match j {
        Some(x) => field(x, key),
        None => None,
    }
}

/// `v[i]` on a looked-up value.
pub fn get_index<'a>(j: Option<&'a Json>, i: usize) -> (r: Option<&'a Json>)
    ensures
        null_or(r) == at_index(null_or(j), i as int),
{
    match j {
        Some(x) => item(x, i),
        None => None,
    }
}

/// The items of a looked-up list; `None` for anything else.
pub fn items_in<'a>(j: Option<&'a Json>) -> (r: Option<&'a Vec<Json>>)
    ensures
        match r {
            Some(v) => items_of(null_or(j)) == json_views(v@),
            None => items_of(null_or(j)) == Seq::<JsonView>::empty(),
        },
{
    match j {
        Some(x) => {
            let r = list_items(x);
            match r {
                Some(v) => {
                    assert(items_of(x@) == json_views(v@));
                },
                None => {},
            }
            r
        },
        None => None,
    }
}

/// The text of a looked-up string value.
pub fn text_in<'a>(j: Option<&'a Json>) -> (r: Option<&'a str>)
    ensures
        match r {
            Some(t) => text_of(null_or(j)) == Some(t@),
            None => text_of(null_or(j)) is None,
        },
{
    match j {
        Some(x) => text_value(x),
        None => None,
    }
}

/// The views of an object's members.
pub open spec fn member_views(fields: Seq<(String, Json)>) -> Seq<(Seq<char>, JsonView)> {
    Seq::new(fields.len(), |k: int| (fields[k].0@, fields[k].1@))
}

/// An object's view is its members' views.
pub proof fn lemma_object_view(fields: Vec<(String, Json)>)
    ensures
        Json::Object(fields)@ == JsonView::Object(member_views(fields@)),
{
    match json_view(Json::Object(fields)) {
        JsonView::Object(f) => {
            assert(f =~= member_views(fields@));
        },
        _ => {},
    }
}

/// A list's view is its items' views.
pub proof fn lemma_list_view(items: Vec<Json>)
    ensures
        Json::List(items)@ == JsonView::List(json_views(items@)),
{
    match json_view(Json::List(items)) {
        JsonView::List(f) => {
            assert(f =~= json_views(items@));
        },
        _ => {},
    }
}

/// A string value.
pub fn text(s: &str) -> (j: Json)
    ensures
        j@ == JsonView::Text(s@),
{
    Json::Text(s.to_owned())
}

/// A number value, written in decimal.
pub fn number(n: u64) -> (j: Json)
    ensures
        j@ == JsonView::Number(decimal(n as nat)),
{
    let mut v: Vec<char> = Vec::new();
    push_decimal(&mut v, n);
    assert(v@ =~= decimal(n as nat));
    Json::Number(string_of(&v))
}

/// An object member.
pub fn entry(key: &str, value: Json) -> (r: (String, Json))
    ensures
        r.0@ == key@,
        r.1@ == value@,
{
    (key.to_owned(), value)
}

/// An object of the given members, in order.
pub fn object(fields: Vec<(String, Json)>) -> (j: Json)
    ensures
        j@ == JsonView::Object(member_views(fields@)),
{
    proof {
        lemma_object_view(fields);
    }
    Json::Object(fields)
}

/// A list of the given items, in order.
pub fn list(items: Vec<Json>) -> (j: Json)
    ensures
        j@ == JsonView::List(json_views(items@)),
{
    proof {
        lemma_list_view(items);
    }
    Json::List(items)
}

} // verus!
