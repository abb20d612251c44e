//! TOML documents as plain values: the library reads configuration text
//! through `toml` into a `TomlValue` and writes a `TomlValue` back as text.

use vstd::prelude::*;
use crate::gateway::str_eq;

verus! {

#[verifier::external_type_specification]
#[verifier::external_body]
pub struct ExTomlValue(toml::Value);

/// A TOML value: a string, an integer, a boolean, an array, a table (its
/// entries in key order) or any other kind of value (floats, dates).
#[derive(Debug)]
pub enum TomlValue {
    Str(String),
    Int(i64),
    Bool(bool),
    Array(Vec<TomlValue>),
    Table(Vec<(String, TomlValue)>),
    Other,
}

/// A TOML value as mathematical values.
pub enum TomlView {
    Str(Seq<char>),
    Int(i64),
    Bool(bool),
    Array(Seq<TomlView>),
    Table(Seq<(Seq<char>, TomlView)>),
    Other,
}

/// The view of a TOML value.
pub open spec fn spec_toml_view(v: TomlValue) -> TomlView
    decreases v,
{
    match v {
        TomlValue::Str(s) => TomlView::Str(s@),
        TomlValue::Int(i) => TomlView::Int(i),
        TomlValue::Bool(b) => TomlView::Bool(b),
        TomlValue::Array(items) => TomlView::Array(
            Seq::new(
                items@.len(),
                |i: int|
                    if 0 <= i < items@.len() {
                        proof {
                            assert(decreases_to!(items => items@));
                            assert(decreases_to!(items@ => items@[i]));
                        }
                        spec_toml_view(items@[i])
                    } else {
                        TomlView::Other
                    },
            ),
        ),
        TomlValue::Table(entries) => TomlView::Table(
            Seq::new(
                entries@.len(),
                |i: int|
                    if 0 <= i < entries@.len() {
                        proof {
                            assert(decreases_to!(entries => entries@));
                            assert(decreases_to!(entries@ => entries@[i]));
                            assert(decreases_to!(entries@[i] => entries@[i].1));
                        }
                        (entries@[i].0@, spec_toml_view(entries@[i].1))
                    } else {
                        (Seq::empty(), TomlView::Other)
                    },
            ),
        ),
        TomlValue::Other => TomlView::Other,
    }
}

impl View for TomlValue {
    type V = TomlView;

    open spec fn view(&self) -> TomlView {
        spec_toml_view(*self)
    }
}

/// The entries of a table as mathematical values.
pub open spec fn spec_entries_view(entries: Seq<(String, TomlValue)>) -> Seq<(Seq<char>, TomlView)> {
    Seq::new(entries.len(), |i: int| (entries[i].0@, entries[i].1@))
}

/// The items of an array as mathematical values.
pub open spec fn spec_items_view(items: Seq<TomlValue>) -> Seq<TomlView> {
    Seq::new(items.len(), |i: int| items[i]@)
}

/// A table's view is the table of its entries' views.
pub proof fn lemma_table_view(entries: Vec<(String, TomlValue)>)
    ensures
        TomlValue::Table(entries)@ == TomlView::Table(spec_entries_view(entries@)),
{
    assert(spec_toml_view(TomlValue::Table(entries)) == TomlView::Table(spec_entries_view(entries@))) by {
        if let TomlView::Table(e) = spec_toml_view(TomlValue::Table(entries)) {
            assert(e =~= spec_entries_view(entries@));
        }
    }
}

/// An array's view is the array of its items' views.
pub proof fn lemma_array_view(items: Vec<TomlValue>)
    ensures
        TomlValue::Array(items)@ == TomlView::Array(spec_items_view(items@)),
{
    assert(spec_toml_view(TomlValue::Array(items)) == TomlView::Array(spec_items_view(items@))) by {
        if let TomlView::Array(e) = spec_toml_view(TomlValue::Array(items)) {
            assert(e =~= spec_items_view(items@));
        }
    }
}

/// The value of the first entry of a table with this key.
pub open spec fn spec_entry(entries: Seq<(Seq<char>, TomlView)>, key: Seq<char>) -> Option<TomlView>
    decreases entries.len(),
{
    if entries.len() == 0 {
        None
    } else if entries[0].0 == key {
        Some(entries[0].1)
    } else {
        spec_entry(entries.drop_first(), key)
    }
}

/// The value under `key` when `v` is a table (`toml::Value::get` with a string key).
pub open spec fn spec_toml_get(v: TomlView, key: Seq<char>) -> Option<TomlView> {
    match v {
        TomlView::Table(entries) => spec_entry(entries, key),
        _ => None,
    }
}

/// The value under `key` in a table value, if there is one.
pub fn toml_get<'a>(v: &'a TomlValue, key: &str) -> (res: Option<&'a TomlValue>)
    ensures
        match spec_toml_get(v@, key@) {
            Some(x) => res matches Some(r) && r@ == x,
            None => res is None,
        },
{
    match v {
        TomlValue::Table(entries) => {
            proof {
                lemma_table_view(*entries);
            }
            let ghost ev = spec_entries_view(entries@);
            assert(v@ == TomlView::Table(ev));
            let mut i: usize = 0;
            assert(ev.skip(0) =~= ev);
            while i < entries.len()
                invariant
                    i <= entries@.len(),
                    ev == spec_entries_view(entries@),
                    v@ == TomlView::Table(ev),
                    spec_entry(ev, key@) == spec_entry(ev.skip(i as int), key@),
                decreases entries@.len() - i,
            {
                assert(ev.skip(i as int).drop_first() =~= ev.skip(i + 1));
                if str_eq(entries[i].0.as_str(), key) {
                    assert(ev.skip(i as int)[0] == ev[i as int]);
                    assert(ev[i as int] == (entries@[i as int].0@, entries@[i as int].1@));
                    return Some(&entries[i].1);
                }
                i = i + 1;
            }
            None
        },
        _ => None,
    }
}

/// The value of a TOML document: what `toml::from_str` reads from the text as
/// a `toml::Value`, or `None` where the text is not a TOML document.
pub uninterp spec fn toml_document(text: Seq<char>) -> Option<TomlView>;

/// The text `toml::to_string_pretty` gives for the `toml::Value` holding a
/// document, or `None` where the document holds a value other than a string,
/// integer, boolean, array or table, or the printer refuses it.
pub uninterp spec fn toml_pretty_text(doc: TomlView) -> Option<Seq<char>>;

/// Builds a `TomlValue` from a `toml::Value`, variant by variant: floats and
/// dates become `Other`, and table entries come in the map's key order.
#[verifier::external_body]
fn from_toml_value(v: &toml::Value) -> TomlValue {
    match v {
        toml::Value::String(s) => TomlValue::Str(s.clone()),
        toml::Value::Integer(i) => TomlValue::Int(*i),
        toml::Value::Boolean(b) => TomlValue::Bool(*b),
        toml::Value::Array(items) => TomlValue::Array(items.iter().map(from_toml_value).collect()),
        toml::Value::Table(t) => TomlValue::Table(t.iter().map(|(k, x)| (k.clone(), from_toml_value(x))).collect()),
        _ => TomlValue::Other,
    }
}

/// Builds a `toml::Value` from a `TomlValue`, variant by variant; `Other`
/// has no counterpart and gives `None`.
#[verifier::external_body]
fn to_toml_value(v: &TomlValue) -> Option<toml::Value> {
    Some(match v {
        TomlValue::Str(s) => toml::Value::String(s.clone()),
        TomlValue::Int(i) => toml::Value::Integer(*i),
        TomlValue::Bool(b) => toml::Value::Boolean(*b),
        TomlValue::Array(items) => toml::Value::Array(items.iter().map(to_toml_value).collect::<Option<Vec<_>>>()?),
        TomlValue::Table(entries) => toml::Value::Table(
            entries.iter().map(|(k, x)| Some((k.clone(), to_toml_value(x)?))).collect::<Option<toml::map::Map<_, _>>>()?,
        ),
        TomlValue::Other => return None,
    })
}

/// Calls `toml::from_str` for a `toml::Value`: the document the text holds,
/// which depends on the text alone and is named `toml_document`.
#[verifier::external_body]
pub(crate) fn parse_toml(text: &str) -> (res: Option<TomlValue>)
    ensures
        match res {
            Some(d) => toml_document(text@) == Some(d@),
            None => toml_document(text@) is None,
        },
{
    match toml::from_str::<toml::Value>(text) {
        Ok(v) => Some(from_toml_value(&v)),
        Err(_) => None,
    }
}

/// Calls `toml::to_string_pretty` on the `toml::Value` holding `doc`: the
/// text, which depends on the document alone and is named `toml_pretty_text`.
#[verifier::external_body]
pub(crate) fn pretty_toml(doc: &TomlValue) -> (res: Option<String>)
    ensures
        match res {
            Some(t) => toml_pretty_text(doc@) == Some(t@),
            None => toml_pretty_text(doc@) is None,
        },
{
    match to_toml_value(doc) {
        Some(v) => toml::to_string_pretty(&v).ok(),
        None => None,
    }
}

} // verus!
