//! JSON documents as values the library can read: each value of `serde_json`
//! one for one, with numbers kept as their text.
use vstd::prelude::*;

verus! {

/// A JSON value.
#[derive(Debug)]
pub enum JsonValue {
    Null,
    Bool(bool),
    /// A number, as `serde_json` prints it.
    Number(String),
    Str(String),
    Array(Vec<JsonValue>),
    Object(Vec<(String, JsonValue)>),
}

/// A JSON value in specifications.
pub enum JsonView {
    Null,
    Bool(bool),
    Number(Seq<char>),
    Str(Seq<char>),
    Array(Seq<JsonView>),
    Object(Seq<(Seq<char>, JsonView)>),
}

pub open spec fn json_view(v: JsonValue) -> JsonView
    decreases v,
{
    match v {
        JsonValue::Null => JsonView::Null,
        JsonValue::Bool(b) => JsonView::Bool(b),
        JsonValue::Number(s) => JsonView::Number(s@),
        JsonValue::Str(s) => JsonView::Str(s@),
        JsonValue::Array(items) => JsonView::Array(json_views(items@)),
        JsonValue::Object(entries) => JsonView::Object(json_entry_views(entries@)),
    }
}

pub open spec fn json_views(items: Seq<JsonValue>) -> Seq<JsonView>
    decreases items,
{
    if items.len() == 0 {
        seq![]
    } else {
        seq![json_view(items[0])] + json_views(items.drop_first())
    }
}

pub open spec fn json_entry_views(entries: Seq<(String, JsonValue)>) -> Seq<(Seq<char>, JsonView)>
    decreases entries,
{
    if entries.len() == 0 {
        seq![]
    } else {
        seq![(entries[0].0@, json_view(entries[0].1))] + json_entry_views(entries.drop_first())
    }
}

impl View for JsonValue {
    type V = JsonView;

    open spec fn view(&self) -> JsonView {
        json_view(*self)
    }
}

pub proof fn lemma_json_views(items: Seq<JsonValue>)
    ensures
        json_views(items) == items.map_values(|v: JsonValue| json_view(v)),
    decreases items.len(),
{
    if items.len() > 0 {
        lemma_json_views(items.drop_first());
    }
    assert(json_views(items) =~= items.map_values(|v: JsonValue| json_view(v)));
}

pub proof fn lemma_json_entry_views(entries: Seq<(String, JsonValue)>)
    ensures
        json_entry_views(entries) == entries.map_values(
            |e: (String, JsonValue)| (e.0@, json_view(e.1)),
        ),
    decreases entries.len(),
{
    if entries.len() > 0 {
        lemma_json_entry_views(entries.drop_first());
    }
    assert(json_entry_views(entries) =~= entries.map_values(
        |e: (String, JsonValue)| (e.0@, json_view(e.1)),
    ));
}

#[verifier::external_type_specification]
#[verifier::external_body]
pub struct ExJsonValue(serde_json::Value);

/// The value that `serde_json::from_slice` reads from the bytes, none when it fails.
pub uninterp spec fn spec_json_parse(bytes: Seq<u8>) -> Option<JsonView>;

/// `serde_json::Value` to `JsonValue`, one for one; a number becomes the text
/// that `serde_json` prints for it. Used only by `parse_json`, whose contract
/// states the composite.
#[verifier::external_body]
fn from_json(value: &serde_json::Value) -> JsonValue {
    match value {
        serde_json::Value::Null => JsonValue::Null,
        serde_json::Value::Bool(b) => JsonValue::Bool(*b),
        serde_json::Value::Number(n) => JsonValue::Number(n.to_string()),
        serde_json::Value::String(s) => JsonValue::Str(s.clone()),
        serde_json::Value::Array(items) => JsonValue::Array(items.iter().map(from_json).collect()),
        serde_json::Value::Object(o) => JsonValue::Object(o.iter().map(|(k, v)| (k.clone(), from_json(v))).collect()),
    }
}

/// Calls `serde_json::from_slice`. Claims that what it reads is a function of
/// the bytes, named `spec_json_parse`.
#[verifier::external_body]
pub(crate) fn parse_json(bytes: &[u8]) -> (r: Option<JsonValue>)
    ensures
        match r {
            Some(v) => spec_json_parse(bytes@) == Some(v@),
            None => spec_json_parse(bytes@) is None,
        },
{
    match serde_json::from_slice::<serde_json::Value>(bytes) {
        Ok(value) => Some(from_json(&value)),
        Err(_) => None,
    }
}

/// The value of the first entry named `name`, when the value is an object.
pub open spec fn entry_named(entries: Seq<(Seq<char>, JsonView)>, name: Seq<char>) -> Option<JsonView>
    decreases entries.len(),
{
    if entries.len() == 0 {
        None
    } else if entries[0].0 == name {
        Some(entries[0].1)
    } else {
        entry_named(entries.drop_first(), name)
    }
}

pub open spec fn json_field(v: JsonView, name: Seq<char>) -> Option<JsonView> {
    match v {
        JsonView::Object(entries) => entry_named(entries, name),
        _ => None,
    }
}

/// The text of a value that is a string.
pub open spec fn json_text(v: Option<JsonView>) -> Option<Seq<char>> {
    match v {
        Some(JsonView::Str(s)) => Some(s),
        _ => None,
    }
}

pub open spec fn opt_view(v: Option<&JsonValue>) -> Option<JsonView> {
    match v {
        Some(x) => Some(x@),
        None => None,
    }
}

/// The field `name` of the value.
pub fn field<'a>(v: &'a JsonValue, name: &str) -> (r: Option<&'a JsonValue>)
    ensures
        opt_view(r) == json_field(v@, name@),
{
    match v {
        JsonValue::Object(entries) => {
            let ghost views = json_entry_views(entries@);
            proof {
                lemma_json_entry_views(entries@);
            }
            let mut i: usize = 0;
            assert(views.skip(0) =~= views);
            assert(json_field(v@, name@) == entry_named(views, name@));
            while i < entries.len()
                invariant
                    views == json_entry_views(entries@),
                    views == entries@.map_values(|e: (String, JsonValue)| (e.0@, json_view(e.1))),
                    i <= entries@.len(),
                    entry_named(views, name@) == entry_named(views.skip(i as int), name@),
                    json_field(v@, name@) == entry_named(views, name@),
                decreases entries@.len() - i,
            {
                assert(views.skip(i as int)[0] == views[i as int]);
                assert(views.skip(i as int).drop_first() =~= views.skip(i + 1));
                assert(views[i as int] == (entries@[i as int].0@, json_view(entries@[i as int].1)));
                if crate::text::str_eq(entries[i].0.as_str(), name) {
                    return Some(&entries[i].1);
                }
                i += 1;
            }
            assert(views.skip(i as int).len() == 0);
            None
        },
        _ => None,
    }
}

/// The text of the field `name`, when it is a string.
pub fn text_field(v: &JsonValue, name: &str) -> (r: Option<String>)
    ensures
        match r {
            Some(s) => json_text(json_field(v@, name@)) == Some(s@),
            None => json_text(json_field(v@, name@)) is None,
        },
{
    match field(v, name) {
        Some(JsonValue::Str(s)) => Some(crate::text::owned(s.as_str())),
        _ => None,
    }
}

} // verus!
