//! TOML documents as trees.
use vstd::prelude::*;

use crate::text::same;

verus! {

/// A TOML value. A float or a date is held as the text that stands for it.
#[derive(Debug, PartialEq)]
pub enum Toml {
    Text(String),
    Integer(i64),
    Float(String),
    Bool(bool),
    Date(String),
    List(Vec<Toml>),
    Table(Vec<(String, Toml)>),
}

pub enum TomlView {
    Text(Seq<char>),
    Integer(i64),
    Float(Seq<char>),
    Bool(bool),
    Date(Seq<char>),
    List(Seq<TomlView>),
    Table(Seq<(Seq<char>, TomlView)>),
}

/// What a TOML value holds.
pub open spec fn view_toml(t: Toml) -> TomlView
    decreases t,
{
    match t {
        Toml::Text(s) => TomlView::Text(s@),
        Toml::Integer(n) => TomlView::Integer(n),
        Toml::Float(s) => TomlView::Float(s@),
        Toml::Bool(b) => TomlView::Bool(b),
        Toml::Date(s) => TomlView::Date(s@),
        Toml::List(items) => TomlView::List(
            Seq::new(
                items@.len(),
                |i: int|
                    if 0 <= i < items@.len() {
                        view_toml(items@[i])
                    } else {
                        TomlView::Bool(false)
                    },
            ),
        ),
        Toml::Table(entries) => TomlView::Table(
            Seq::new(
                entries@.len(),
                |i: int|
                    if 0 <= i < entries@.len() {
                        (entries@[i].0@, view_toml(entries@[i].1))
                    } else {
                        (Seq::empty(), TomlView::Bool(false))
                    },
            ),
        ),
    }
}

impl DeepView for Toml {
    type V = TomlView;

    open spec fn deep_view(&self) -> TomlView {
        view_toml(*self)
    }
}

/// The value of the first entry at or after `from` with this key.
pub open spec fn entry_from(entries: Seq<(Seq<char>, TomlView)>, key: Seq<char>, from: int) -> Option<
    TomlView,
>
    decreases entries.len() - from,
{
    if from >= entries.len() {
        None
    } else if entries[from].0 == key {
        Some(entries[from].1)
    } else {
        entry_from(entries, key, from + 1)
    }
}

/// The entry of a table with this key.
pub open spec fn entry_of(t: Option<TomlView>, key: Seq<char>) -> Option<TomlView> {
    match t {
        Some(TomlView::Table(entries)) => entry_from(entries, key, 0),
        _ => None,
    }
}

/// The text that a value is, if it is one.
pub open spec fn string_in(t: Option<TomlView>) -> Option<Seq<char>> {
    match t {
        Some(TomlView::Text(s)) => Some(s),
        _ => None,
    }
}

pub open spec fn view_toml_option(t: Option<&Toml>) -> Option<TomlView> {
    match t {
        Some(value) => Some(view_toml(*value)),
        None => None,
    }
}

pub fn entry<'a>(t: Option<&'a Toml>, key: &str) -> (r: Option<&'a Toml>)
    ensures
        view_toml_option(r) == entry_of(view_toml_option(t), key@),
{
    match t {
        Some(Toml::Table(entries)) => {
            let ghost view = view_toml_option(t)->0->Table_0;
            let mut i: usize = 0;
            while i < entries.len()
                invariant
                    view_toml_option(t) == Some(TomlView::Table(view)),
                    view.len() == entries@.len(),
                    forall|k: int|
                        0 <= k < entries@.len() ==> #[trigger] view[k] == (
                            entries@[k].0@,
                            view_toml(entries@[k].1),
                        ),
                    i <= entries@.len(),
                    entry_from(view, key@, 0) == entry_from(view, key@, i as int),
                decreases entries.len() - i,
            {
                assert(view[i as int] == (entries@[i as int].0@, view_toml(entries@[i as int].1)));
                if same(entries[i].0.as_str(), key) {
                    return Some(&entries[i].1);
                }
                i += 1;
            }
            None
        },
        _ => None,
    }
}

pub fn string_of_toml<'a>(t: Option<&'a Toml>) -> (r: Option<&'a String>)
    ensures
        match r {
            Some(text) => string_in(view_toml_option(t)) == Some(text@),
            None => string_in(view_toml_option(t)) is None,
        },
{
    match t {
        Some(Toml::Text(s)) => Some(s),
        _ => None,
    }
}

/// The TOML value of the outside crate.
#[verifier::external_type_specification]
#[verifier::external_body]
pub struct ExTomlValue(toml::Value);

/// What a value of `toml` holds.
pub uninterp spec fn toml_held_by(value: toml::Value) -> TomlView;

/// What the text of a TOML document holds, if it is one.
pub uninterp spec fn toml_in(text: Seq<char>) -> Option<TomlView>;

/// Parses a text with `toml::Value`'s `FromStr`. What comes out is named `toml_in` and depends on
/// the text alone; nothing comes out where the parser reports an error.
#[verifier::external_body]
fn toml_value(text: &str) -> (r: Option<toml::Value>)
    ensures
        match r {
            Some(value) => toml_in(text@) == Some(toml_held_by(value)),
            None => toml_in(text@) is None,
        },
{
    text.parse::<toml::Value>().ok()
}

/// Copies a value of `toml`, variant by variant; floats and dates become what `to_string` prints.
#[verifier::external_body]
fn copied_toml(value: toml::Value) -> (r: Toml)
    ensures
        view_toml(r) == toml_held_by(value),
{
    match value {
        toml::Value::String(s) => Toml::Text(s),
        toml::Value::Integer(n) => Toml::Integer(n),
        toml::Value::Float(x) => Toml::Float(x.to_string()),
        toml::Value::Boolean(b) => Toml::Bool(b),
        toml::Value::Datetime(d) => Toml::Date(d.to_string()),
        toml::Value::Array(items) => Toml::List(items.into_iter().map(copied_toml).collect()),
        toml::Value::Table(entries) => Toml::Table(
            entries.into_iter().map(|(k, v)| (k, copied_toml(v))).collect(),
        ),
    }
}

/// What the text of a TOML document holds, if it is one.
pub fn parse_toml(text: &str) -> (r: Option<Toml>)
    ensures
        r.deep_view() == toml_in(text@),
{
    match toml_value(text) {
        Some(value) => Some(copied_toml(value)),
        None => None,
    }
}

} // verus!
