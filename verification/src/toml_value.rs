//! TOML documents as values the library can read: each value of the `toml`
//! crate one for one, with integers, floats and date-times kept as their text.
use vstd::prelude::*;

verus! {

/// A TOML value.
#[derive(Debug)]
pub enum TomlValue {
    Str(String),
    Bool(bool),
    Array(Vec<TomlValue>),
    Table(Vec<(String, TomlValue)>),
    /// An integer, float or date-time, as the `toml` crate prints it.
    Other(String),
}

/// A TOML value in specifications.
pub enum TomlView {
    Str(Seq<char>),
    Bool(bool),
    Array(Seq<TomlView>),
    Table(Seq<(Seq<char>, TomlView)>),
    Other(Seq<char>),
}

pub open spec fn toml_view(v: TomlValue) -> TomlView
    decreases v,
{
    match v {
        TomlValue::Str(s) => TomlView::Str(s@),
        TomlValue::Bool(b) => TomlView::Bool(b),
        TomlValue::Array(items) => TomlView::Array(toml_views(items@)),
        TomlValue::Table(entries) => TomlView::Table(toml_entry_views(entries@)),
        TomlValue::Other(s) => TomlView::Other(s@),
    }
}

pub open spec fn toml_views(items: Seq<TomlValue>) -> Seq<TomlView>
    decreases items,
{
    if items.len() == 0 {
        seq![]
    } else {
        seq![toml_view(items[0])] + toml_views(items.drop_first())
    }
}

pub open spec fn toml_entry_views(entries: Seq<(String, TomlValue)>) -> Seq<(Seq<char>, TomlView)>
    decreases entries,
{
    if entries.len() == 0 {
        seq![]
    } else {
        seq![(entries[0].0@, toml_view(entries[0].1))] + toml_entry_views(entries.drop_first())
    }
}

impl View for TomlValue {
    type V = TomlView;

    open spec fn view(&self) -> TomlView {
        toml_view(*self)
    }
}

#[verifier::external_type_specification]
#[verifier::external_body]
pub struct ExTomlValue(toml::Value);

/// The document that `toml::from_str` reads from the text, none when it fails.
pub uninterp spec fn spec_toml_parse(text: Seq<char>) -> Option<TomlView>;

/// The text that `toml::to_string` writes for a table, none when it fails.
pub uninterp spec fn spec_toml_print(document: TomlView) -> Option<Seq<char>>;

/// `toml::Value` to `TomlValue`, one for one; integers, floats and date-times
/// become the text that the `toml` crate prints for them. Used only by the
/// wrappers below, whose contracts state the composite.
#[verifier::external_body]
fn from_toml(value: &toml::Value) -> TomlValue {
    match value {
        toml::Value::String(s) => TomlValue::Str(s.clone()),
        toml::Value::Boolean(b) => TomlValue::Bool(*b),
        toml::Value::Array(items) => TomlValue::Array(items.iter().map(from_toml).collect()),
        toml::Value::Table(t) => TomlValue::Table(t.iter().map(|(k, v)| (k.clone(), from_toml(v))).collect()),
        other => TomlValue::Other(other.to_string()),
    }
}

/// `TomlValue` to `toml::Value`, one for one; the text of an integer, float or
/// date-time is read back with `toml::Value::from_str`. None when it does not read.
#[verifier::external_body]
fn to_toml(value: &TomlValue) -> Option<toml::Value> {
    Some(match value {
        TomlValue::Str(s) => toml::Value::String(s.clone()),
        TomlValue::Bool(b) => toml::Value::Boolean(*b),
        TomlValue::Array(items) => toml::Value::Array(items.iter().map(to_toml).collect::<Option<_>>()?),
        TomlValue::Table(t) => toml::Value::Table(t.iter().map(|(k, v)| Some((k.clone(), to_toml(v)?))).collect::<Option<_>>()?),
        TomlValue::Other(text) => text.parse::<toml::Value>().ok()?,
    })
}

/// Calls `toml::from_str` for a whole document. Claims that what it reads is a
/// function of the text, named `spec_toml_parse`.
#[verifier::external_body]
pub(crate) fn parse_toml(text: &str) -> (r: Option<TomlValue>)
    ensures
        match r {
            Some(v) => spec_toml_parse(text@) == Some(v@),
            None => spec_toml_parse(text@) is None,
        },
{
    match toml::from_str::<toml::Value>(text) {
        Ok(value) => Some(from_toml(&value)),
        Err(_) => None,
    }
}

/// Calls `toml::to_string` on the document. Claims that what it writes is a
/// function of the document, named `spec_toml_print`.
#[verifier::external_body]
pub(crate) fn print_toml(document: &TomlValue) -> (r: Option<String>)
    ensures
        match r {
            Some(s) => spec_toml_print(document@) == Some(s@),
            None => spec_toml_print(document@) is None,
        },
{
    match to_toml(document) {
        Some(value) => toml::to_string(&value).ok(),
        None => None,
    }
}

} // verus!
