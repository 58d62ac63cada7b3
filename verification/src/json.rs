//! JSON documents as trees.
use vstd::prelude::*;

use crate::numbers::{number_in, read_number};
use crate::ordering::{before, key, key_view, rank, text_key, Order, Rank};
use crate::text::same;

verus! {

/// A JSON value. A number is held as the text that stands for it; the fields of an object are in
/// the order of their names.
#[derive(Debug, PartialEq)]
pub enum Json {
    Null,
    Bool(bool),
    Number(String),
    Text(String),
    List(Vec<Json>),
    Object(Vec<(String, Json)>),
}

pub enum JsonView {
    Null,
    Bool(bool),
    Number(Seq<char>),
    Text(Seq<char>),
    List(Seq<JsonView>),
    Object(Seq<(Seq<char>, JsonView)>),
}

/// What a JSON value holds.
pub open spec fn view_json(j: Json) -> JsonView
    decreases j,
{
    match j {
        Json::Null => JsonView::Null,
        Json::Bool(b) => JsonView::Bool(b),
        Json::Number(n) => JsonView::Number(n@),
        Json::Text(s) => JsonView::Text(s@),
        Json::List(items) => JsonView::List(
            Seq::new(
                items@.len(),
                |i: int|
                    if 0 <= i < items@.len() {
                        view_json(items@[i])
                    } else {
                        JsonView::Null
                    },
            ),
        ),
        Json::Object(fields) => JsonView::Object(
            Seq::new(
                fields@.len(),
                |i: int|
                    if 0 <= i < fields@.len() {
                        (fields@[i].0@, view_json(fields@[i].1))
                    } else {
                        (Seq::empty(), JsonView::Null)
                    },
            ),
        ),
    }
}

impl DeepView for Json {
    type V = JsonView;

    open spec fn deep_view(&self) -> JsonView {
        view_json(*self)
    }
}

/// The value of the first field at or after `from` with this name.
pub open spec fn field_from(fields: Seq<(Seq<char>, JsonView)>, name: Seq<char>, from: int) -> Option<
    JsonView,
>
    decreases fields.len() - from,
{
    if from >= fields.len() {
        None
    } else if fields[from].0 == name {
        Some(fields[from].1)
    } else {
        field_from(fields, name, from + 1)
    }
}

/// The field of an object with this name.
pub open spec fn field_of(j: JsonView, name: Seq<char>) -> Option<JsonView> {
    match j {
        JsonView::Object(fields) => field_from(fields, name, 0),
        _ => None,
    }
}

/// The text that a value is, if it is one.
pub open spec fn text_in(j: Option<JsonView>) -> Option<Seq<char>> {
    match j {
        Some(JsonView::Text(s)) => Some(s),
        _ => None,
    }
}

/// The whole number below 2^64 that a value is, if it is one.
pub open spec fn whole_in(j: Option<JsonView>) -> Option<int> {
    match j {
        Some(JsonView::Number(n)) => number_in(n, 10, u64::MAX as int),
        _ => None,
    }
}

/// The list that a value is, if it is one.
pub open spec fn list_in(j: Option<JsonView>) -> Option<Seq<JsonView>> {
    match j {
        Some(JsonView::List(items)) => Some(items),
        _ => None,
    }
}

pub open spec fn view_option(j: Option<&Json>) -> Option<JsonView> {
    match j {
        Some(value) => Some(view_json(*value)),
        None => None,
    }
}

impl Json {
    pub fn get(&self, name: &str) -> (r: Option<&Json>)
        ensures
            view_option(r) == field_of(view_json(*self), name@),
    {
        match self {
            Json::Object(fields) => {
                let ghost view = view_json(*self)->Object_0;
                let mut i: usize = 0;
                while i < fields.len()
                    invariant
                        view_json(*self) == JsonView::Object(view),
                        view.len() == fields@.len(),
                        forall|k: int|
                            0 <= k < fields@.len() ==> #[trigger] view[k] == (
                                fields@[k].0@,
                                view_json(fields@[k].1),
                            ),
                        i <= fields@.len(),
                        field_from(view, name@, 0) == field_from(view, name@, i as int),
                    decreases fields.len() - i,
                {
                    assert(view[i as int] == (fields@[i as int].0@, view_json(fields@[i as int].1)));
                    if same(fields[i].0.as_str(), name) {
                        return Some(&fields[i].1);
                    }
                    i += 1;
                }
                None
            },
            _ => None,
        }
    }
}

pub fn text_of_json<'a>(j: Option<&'a Json>) -> (r: Option<&'a String>)
    ensures
        match r {
            Some(text) => text_in(view_option(j)) == Some(text@),
            None => text_in(view_option(j)) is None,
        },
{
    match j {
        Some(Json::Text(s)) => Some(s),
        _ => None,
    }
}

pub fn whole_of_json(j: Option<&Json>) -> (r: Option<u64>)
    ensures
        match r {
            Some(n) => whole_in(view_option(j)) == Some(n as int),
            None => whole_in(view_option(j)) is None,
        },
{
    match j {
        Some(Json::Number(n)) => read_number(n.as_str(), 10, 0xffff_ffff_ffff_ffff),
        _ => None,
    }
}

pub fn list_of_json<'a>(j: Option<&'a Json>) -> (r: Option<&'a Vec<Json>>)
    ensures
        match r {
            Some(items) => list_in(view_option(j)) == Some(items.deep_view()),
            None => list_in(view_option(j)) is None,
        },
{
    match j {
        Some(Json::List(items)) => {
            assert(list_in(view_option(j))->0 =~= items.deep_view());
            Some(items)
        },
        _ => None,
    }
}

/// The fields of an object.
pub type Fields = Seq<(Seq<char>, JsonView)>;

/// What the fields of an object hold.
pub open spec fn view_fields(fields: Seq<(String, Json)>) -> Fields {
    Seq::new(fields.len(), |i: int| (fields[i].0@, view_json(fields[i].1)))
}

pub proof fn lemma_view_object(fields: Vec<(String, Json)>)
    ensures
        view_json(Json::Object(fields)) == JsonView::Object(view_fields(fields@)),
{
    assert(view_json(Json::Object(fields))->Object_0 =~= view_fields(fields@));
}

pub proof fn lemma_view_list(items: Vec<Json>)
    ensures
        view_json(Json::List(items)) == JsonView::List(items.deep_view()),
{
    assert(view_json(Json::List(items))->List_0 =~= items.deep_view());
}

/// The position of the first field at or after `from` with this name.
pub open spec fn index_from(fields: Fields, name: Seq<char>, from: int) -> Option<int>
    decreases fields.len() - from,
{
    if from >= fields.len() {
        None
    } else if fields[from].0 == name {
        Some(from)
    } else {
        index_from(fields, name, from + 1)
    }
}

pub proof fn lemma_index_from(fields: Fields, name: Seq<char>, from: int)
    requires
        0 <= from,
    ensures
        match index_from(fields, name, from) {
            Some(i) => from <= i < fields.len() && fields[i].0 == name,
            None => true,
        },
    decreases fields.len() - from,
{
    if from < fields.len() && fields[from].0 != name {
        lemma_index_from(fields, name, from + 1);
    }
}

/// Whether there is a field with this name.
pub open spec fn has_field(fields: Fields, name: Seq<char>) -> bool {
    index_from(fields, name, 0) is Some
}

/// The value of the field with this name.
pub open spec fn field_at(fields: Fields, name: Seq<char>) -> Option<JsonView> {
    match index_from(fields, name, 0) {
        Some(i) => Some(fields[i].1),
        None => None,
    }
}

/// The position of the first field at or after `from` whose name does not come before this one.
pub open spec fn slot_from(fields: Fields, name: Seq<char>, from: int) -> int
    decreases fields.len() - from,
{
    if from >= fields.len() || !before(text_key(fields[from].0), text_key(name)) {
        from
    } else {
        slot_from(fields, name, from + 1)
    }
}

/// The fields with a new value for one of them, or with one more.
pub open spec fn with_field(fields: Fields, name: Seq<char>, value: JsonView) -> Fields {
    match index_from(fields, name, 0) {
        Some(i) => fields.update(i, (name, value)),
        None => fields.insert(slot_from(fields, name, 0), (name, value)),
    }
}

pub fn position(fields: &Vec<(String, Json)>, name: &str) -> (r: Option<usize>)
    ensures
        match r {
            Some(i) => index_from(view_fields(fields@), name@, 0) == Some(i as int) && i
                < fields@.len() && fields@[i as int].0@ == name@,
            None => index_from(view_fields(fields@), name@, 0) is None,
        },
{
    let ghost view = view_fields(fields@);
    let mut i: usize = 0;
    while i < fields.len()
        invariant
            view == view_fields(fields@),
            i <= fields@.len(),
            index_from(view, name@, 0) == index_from(view, name@, i as int),
        decreases fields.len() - i,
    {
        assert(view[i as int].0 == fields@[i as int].0@);
        if same(fields[i].0.as_str(), name) {
            return Some(i);
        }
        i += 1;
    }
    None
}

pub fn contains_field(fields: &Vec<(String, Json)>, name: &str) -> (r: bool)
    ensures
        r == has_field(view_fields(fields@), name@),
{
    position(fields, name).is_some()
}

fn slot(fields: &Vec<(String, Json)>, name: &str) -> (r: usize)
    ensures
        r == slot_from(view_fields(fields@), name@, 0),
        r <= fields@.len(),
{
    let ghost view = view_fields(fields@);
    let wanted = key(Order::Text, name);
    let mut i: usize = 0;
    while i < fields.len()
        invariant
            view == view_fields(fields@),
            key_view(wanted@) == text_key(name@),
            i <= fields@.len(),
            slot_from(view, name@, 0) == slot_from(view, name@, i as int),
        decreases fields.len() - i,
    {
        assert(view[i as int].0 == fields@[i as int].0@);
        match rank(&key(Order::Text, fields[i].0.as_str()), &wanted) {
            Rank::Before => {},
            _ => {
                return i;
            },
        }
        i += 1;
    }
    i
}

/// Gives a field a value.
pub fn insert_field(fields: &mut Vec<(String, Json)>, name: &str, value: Json)
    ensures
        view_fields(final(fields)@) == with_field(
            view_fields(old(fields)@),
            name@,
            view_json(value),
        ),
{
    let ghost had = view_fields(fields@);
    match position(fields, name) {
        Some(i) => {
            let entry = (name.to_owned(), value);
            fields.set(i, entry);
            assert(view_fields(fields@) =~= had.update(i as int, (name@, view_json(value))));
        },
        None => {
            let at: usize = slot(fields, name);
            let entry = (name.to_owned(), value);
            fields.insert(at, entry);
            assert(view_fields(fields@) =~= had.insert(at as int, (name@, view_json(value))));
        },
    }
}

/// The value of the field with this name.
pub fn find_field<'a>(fields: &'a Vec<(String, Json)>, name: &str) -> (r: Option<&'a Json>)
    ensures
        view_option(r) == field_at(view_fields(fields@), name@),
{
    match position(fields, name) {
        Some(i) => Some(&fields[i].1),
        None => None,
    }
}

proof fn lemma_slot_from(fields: Fields, name: Seq<char>, from: int)
    requires
        0 <= from <= fields.len(),
    ensures
        from <= slot_from(fields, name, from) <= fields.len(),
    decreases fields.len() - from,
{
    if from < fields.len() && before(text_key(fields[from].0), text_key(name)) {
        lemma_slot_from(fields, name, from + 1);
    }
}

proof fn lemma_field_at(fields: Fields, name: Seq<char>, from: int)
    requires
        0 <= from,
    ensures
        field_from(fields, name, from) == match index_from(fields, name, from) {
            Some(i) => Some(fields[i].1),
            None => None,
        },
    decreases fields.len() - from,
{
    if from < fields.len() && fields[from].0 != name {
        lemma_field_at(fields, name, from + 1);
    }
}

proof fn lemma_field_after_insert(
    fields: Fields,
    at: int,
    name: Seq<char>,
    value: JsonView,
    other: Seq<char>,
    from: int,
)
    requires
        0 <= from <= fields.len(),
        0 <= at <= fields.len(),
        name != other,
    ensures
        from <= at ==> field_from(fields.insert(at, (name, value)), other, from) == field_from(
            fields,
            other,
            from,
        ),
        from >= at ==> field_from(fields.insert(at, (name, value)), other, from + 1) == field_from(
            fields,
            other,
            from,
        ),
    decreases fields.len() - from,
{
    let more = fields.insert(at, (name, value));
    if from < fields.len() {
        lemma_field_after_insert(fields, at, name, value, other, from + 1);
        if from < at {
            assert(more[from] == fields[from]);
        } else {
            assert(more[from + 1] == fields[from]);
        }
    }
    if from == at {
        assert(more[at] == (name, value));
    }
}

proof fn lemma_field_after_update(
    fields: Fields,
    at: int,
    name: Seq<char>,
    value: JsonView,
    other: Seq<char>,
    from: int,
)
    requires
        0 <= from,
        0 <= at < fields.len(),
        fields[at].0 == name,
        name != other,
    ensures
        field_from(fields.update(at, (name, value)), other, from) == field_from(fields, other, from),
    decreases fields.len() - from,
{
    if from < fields.len() {
        lemma_field_after_update(fields, at, name, value, other, from + 1);
    }
}

proof fn lemma_found_after_insert(fields: Fields, at: int, name: Seq<char>, value: JsonView, from: int)
    requires
        0 <= from <= at <= fields.len(),
        index_from(fields, name, from) is None,
    ensures
        field_from(fields.insert(at, (name, value)), name, from) == Some(value),
    decreases at - from,
{
    let more = fields.insert(at, (name, value));
    if from < at {
        assert(more[from] == fields[from]);
        lemma_found_after_insert(fields, at, name, value, from + 1);
    } else {
        assert(more[at] == (name, value));
    }
}

proof fn lemma_found_after_update(fields: Fields, at: int, name: Seq<char>, value: JsonView, from: int)
    requires
        0 <= from,
        index_from(fields, name, from) == Some(at),
    ensures
        field_from(fields.update(at, (name, value)), name, from) == Some(value),
    decreases fields.len() - from,
{
    lemma_index_from(fields, name, from);
    if from < fields.len() && fields[from].0 != name {
        lemma_found_after_update(fields, at, name, value, from + 1);
    }
}

/// A field that was given a value has it, and every other field keeps its own.
pub proof fn law_a_field_holds_what_it_was_given(
    fields: Fields,
    name: Seq<char>,
    value: JsonView,
    other: Seq<char>,
)
    ensures
        field_at(with_field(fields, name, value), name) == Some(value),
        name != other ==> field_at(with_field(fields, name, value), other) == field_at(
            fields,
            other,
        ),
{
    let more = with_field(fields, name, value);
    lemma_field_at(more, name, 0);
    lemma_field_at(more, other, 0);
    lemma_field_at(fields, other, 0);
    lemma_index_from(fields, name, 0);
    match index_from(fields, name, 0) {
        Some(i) => {
            lemma_found_after_update(fields, i, name, value, 0);
            if name != other {
                lemma_field_after_update(fields, i, name, value, other, 0);
            }
        },
        None => {
            lemma_slot_from(fields, name, 0);
            let at = slot_from(fields, name, 0);
            lemma_found_after_insert(fields, at, name, value, 0);
            if name != other {
                lemma_field_after_insert(fields, at, name, value, other, 0);
            }
        },
    }
}

/// The JSON value of the outside crate.
#[verifier::external_type_specification]
#[verifier::external_body]
pub struct ExJsonValue(serde_json::Value);

/// What a value of `serde_json` holds.
pub uninterp spec fn held_by(value: serde_json::Value) -> JsonView;

/// What the bytes of a JSON document hold, or what the parser says of bytes that are none.
pub uninterp spec fn parsed_json(bytes: Seq<u8>) -> Result<JsonView, Seq<char>>;

/// What the bytes of a JSON document hold, if they are one.
pub open spec fn document_in(bytes: Seq<u8>) -> Option<JsonView> {
    match parsed_json(bytes) {
        Ok(document) => Some(document),
        Err(_) => None,
    }
}

/// Parses bytes with `serde_json::from_slice`. What comes out, a value or the error as it is shown,
/// is named `parsed_json` and depends on the bytes alone.
#[verifier::external_body]
fn json_slice(bytes: &[u8]) -> (r: Result<serde_json::Value, String>)
    ensures
        match r {
            Ok(value) => parsed_json(bytes@) == Ok::<JsonView, Seq<char>>(held_by(value)),
            Err(cause) => parsed_json(bytes@) == Err::<JsonView, Seq<char>>(cause@),
        },
{
    match serde_json::from_slice(bytes) {
        Ok(value) => Ok(value),
        Err(error) => Err(error.to_string()),
    }
}

/// Copies a value of `serde_json`, variant by variant; numbers become what `Number::to_string`
/// prints.
#[verifier::external_body]
fn copied(value: serde_json::Value) -> (r: Json)
    ensures
        view_json(r) == held_by(value),
{
    match value {
        serde_json::Value::Null => Json::Null,
        serde_json::Value::Bool(b) => Json::Bool(b),
        serde_json::Value::Number(n) => Json::Number(n.to_string()),
        serde_json::Value::String(s) => Json::Text(s),
        serde_json::Value::Array(items) => Json::List(items.into_iter().map(copied).collect()),
        serde_json::Value::Object(fields) => Json::Object(
            fields.into_iter().map(|(k, v)| (k, copied(v))).collect(),
        ),
    }
}

/// What the bytes of a JSON document hold, or what the parser says of them.
pub fn read_json(bytes: &[u8]) -> (r: Result<Json, String>)
    ensures
        match r {
            Ok(document) => parsed_json(bytes@) == Ok::<JsonView, Seq<char>>(view_json(document)),
            Err(cause) => parsed_json(bytes@) == Err::<JsonView, Seq<char>>(cause@),
        },
{
    match json_slice(bytes) {
        Ok(value) => Ok(copied(value)),
        Err(cause) => Err(cause),
    }
}

/// What the bytes of a JSON document hold, if they are one.
pub fn parse_json(bytes: &[u8]) -> (r: Option<Json>)
    ensures
        r.deep_view() == document_in(bytes@),
{
    match read_json(bytes) {
        Ok(document) => Some(document),
        Err(_) => None,
    }
}

} // verus!
