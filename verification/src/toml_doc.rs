//! Parsed TOML documents as plain data.
//!
//! The configuration source is a TOML document.  Parsing the text is done by
//! the `toml` crate behind one trusted boundary; everything after that —
//! holding the parsed tree, looking keys up, checking it against the
//! configuration schema — works on the library's own [`TomlValue`] and is
//! verified.

use vstd::prelude::*;

verus! {

/// A parsed TOML value, held as plain data.  Floats and datetimes, which the
/// configuration schema never reads, are collapsed into `Other`.
#[derive(Debug)]
pub enum TomlValue {
    Str { value: String },
    Int { value: i64 },
    Bool { value: bool },
    Array { items: Vec<TomlValue> },
    Table { entries: Vec<(String, TomlValue)> },
    Other,
}

/// Spec-level picture of a TOML value.
pub enum TomlModel {
    Str { value: Seq<char> },
    Int { value: i64 },
    Bool { value: bool },
    Array { items: Seq<TomlModel> },
    Table { entries: Seq<(Seq<char>, TomlModel)> },
    Other,
}

/// The model of one value.
pub open spec fn toml_value_model(v: TomlValue) -> TomlModel
    decreases v, 0int,
{
    match v {
        TomlValue::Str { value } => TomlModel::Str { value: value@ },
        TomlValue::Int { value } => TomlModel::Int { value },
        TomlValue::Bool { value } => TomlModel::Bool { value },
        TomlValue::Array { items } => TomlModel::Array { items: toml_items_model(items@) },
        TomlValue::Table { entries } => TomlModel::Table {
            entries: toml_entries_model(entries@),
        },
        TomlValue::Other => TomlModel::Other,
    }
}

/// The models of an array's items, in order.
pub open spec fn toml_items_model(items: Seq<TomlValue>) -> Seq<TomlModel>
    decreases items, 1int,
{
    if items.len() == 0 {
        Seq::empty()
    } else {
        seq![toml_value_model(items.first())] + toml_items_model(items.drop_first())
    }
}

/// The models of a table's entries, in order.
pub open spec fn toml_entries_model(entries: Seq<(String, TomlValue)>) -> Seq<
    (Seq<char>, TomlModel),
>
    decreases entries, 1int,
{
    if entries.len() == 0 {
        Seq::empty()
    } else {
        seq![(entries.first().0@, toml_value_model(entries.first().1))] + toml_entries_model(
            entries.drop_first(),
        )
    }
}

impl View for TomlValue {
    type V = TomlModel;

    open spec fn view(&self) -> TomlModel {
        toml_value_model(*self)
    }
}

/// The value under `key`, first match wins.  TOML rejects duplicate keys, so
/// a parsed table never holds two entries with the same key anyway.
pub open spec fn table_lookup(entries: Seq<(Seq<char>, TomlModel)>, key: Seq<char>) -> Option<
    TomlModel,
>
    decreases entries,
{
    if entries.len() == 0 {
        None
    } else if entries.first().0 == key {
        Some(entries.first().1)
    } else {
        table_lookup(entries.drop_first(), key)
    }
}

pub proof fn lemma_toml_items_model_len(items: Seq<TomlValue>)
    ensures
        toml_items_model(items).len() == items.len(),
    decreases items,
{
    if items.len() > 0 {
        lemma_toml_items_model_len(items.drop_first());
    }
}

pub proof fn lemma_toml_entries_model_len(entries: Seq<(String, TomlValue)>)
    ensures
        toml_entries_model(entries).len() == entries.len(),
    decreases entries,
{
    if entries.len() > 0 {
        lemma_toml_entries_model_len(entries.drop_first());
    }
}

/// Unfolds the model of a suffix of an array by one item.
pub proof fn lemma_toml_items_model_skip(items: Seq<TomlValue>, i: int)
    requires
        0 <= i < items.len(),
    ensures
        toml_items_model(items.skip(i)).len() == items.len() - i,
        toml_items_model(items.skip(i)).first() == toml_value_model(items[i]),
        toml_items_model(items.skip(i)).drop_first() == toml_items_model(items.skip(i + 1)),
{
    let s = items.skip(i);
    lemma_toml_items_model_len(s);
    assert(s.first() == items[i]);
    assert(s.drop_first() =~= items.skip(i + 1));
    assert(toml_items_model(s).first() == toml_value_model(s.first()));
    assert(toml_items_model(s).drop_first() =~= toml_items_model(s.drop_first()));
}

/// Unfolds the model of a suffix of a table by one entry.
pub proof fn lemma_toml_entries_model_skip(entries: Seq<(String, TomlValue)>, i: int)
    requires
        0 <= i < entries.len(),
    ensures
        toml_entries_model(entries.skip(i)).len() == entries.len() - i,
        toml_entries_model(entries.skip(i)).first() == (
            entries[i].0@,
            toml_value_model(entries[i].1),
        ),
        toml_entries_model(entries.skip(i)).drop_first() == toml_entries_model(
            entries.skip(i + 1),
        ),
{
    let s = entries.skip(i);
    lemma_toml_entries_model_len(s);
    assert(s.first() == entries[i]);
    assert(s.drop_first() =~= entries.skip(i + 1));
    assert(toml_entries_model(s).first() == (s.first().0@, toml_value_model(s.first().1)));
    assert(toml_entries_model(s).drop_first() =~= toml_entries_model(s.drop_first()));
}

/// The model of a whole table, one entry at a time.
pub proof fn lemma_toml_entries_model_index(entries: Seq<(String, TomlValue)>, i: int)
    requires
        0 <= i < entries.len(),
    ensures
        toml_entries_model(entries)[i] == (entries[i].0@, toml_value_model(entries[i].1)),
    decreases i,
{
    lemma_toml_entries_model_len(entries);
    if i == 0 {
        assert(toml_entries_model(entries)[0] == (
            entries.first().0@,
            toml_value_model(entries.first().1),
        ));
    } else {
        lemma_toml_entries_model_index(entries.drop_first(), i - 1);
        lemma_toml_entries_model_len(entries.drop_first());
        assert(entries.drop_first()[i - 1] == entries[i]);
        assert(toml_entries_model(entries)[i] == toml_entries_model(entries.drop_first())[i - 1]);
    }
}

/// Where the first `i` keys differ from `key` and the `i`-th matches, the
/// lookup answers the `i`-th entry.
pub proof fn lemma_table_lookup_first_match(
    entries: Seq<(Seq<char>, TomlModel)>,
    key: Seq<char>,
    i: int,
)
    requires
        0 <= i < entries.len(),
        forall|j: int| 0 <= j < i ==> entries[j].0 != key,
        entries[i].0 == key,
    ensures
        table_lookup(entries, key) == Some(entries[i].1),
    decreases i,
{
    if i > 0 {
        lemma_table_lookup_first_match(entries.drop_first(), key, i - 1);
        assert(entries.drop_first()[i - 1] == entries[i]);
        assert(forall|j: int| 0 <= j < i - 1 ==> entries.drop_first()[j] == entries[j + 1]);
    }
}

/// Where no key matches, the lookup answers nothing.
pub proof fn lemma_table_lookup_none(entries: Seq<(Seq<char>, TomlModel)>, key: Seq<char>)
    requires
        forall|j: int| 0 <= j < entries.len() ==> entries[j].0 != key,
    ensures
        table_lookup(entries, key) is None,
    decreases entries,
{
    if entries.len() > 0 {
        assert(forall|j: int|
            0 <= j < entries.drop_first().len() ==> entries.drop_first()[j] == entries[j + 1]);
        lemma_table_lookup_none(entries.drop_first(), key);
    }
}

/// Whether a piece of text is a well-formed TOML document.
pub uninterp spec fn toml_parses(text: Seq<char>) -> bool;

/// The value tree a well-formed TOML document denotes.
pub uninterp spec fn toml_doc_of(text: Seq<char>) -> TomlModel;

#[verifier::external_type_specification]
#[verifier::external_body]
pub struct ExTomlDocValue(toml::Value);

/// Relies on `toml::from_str::<toml::Value>`: whether a document is
/// well-formed TOML, and which value tree it denotes, are functions of the
/// text alone.  On failure the parser's own description is returned.
#[verifier::external_body]
pub(crate) fn parse_toml_source(text: &str) -> (r: Result<TomlValue, String>)
    ensures
        r is Ok <==> toml_parses(text@),
        r is Ok ==> (r->Ok_0)@ == toml_doc_of(text@),
{
    match toml::from_str::<toml::Value>(text) {
        Ok(value) => Ok(toml_value_tree(&value)),
        Err(e) => Err(e.to_string()),
    }
}

/// Relies on the shape of `toml::Value`: copies the parsed tree into the
/// library's own representation, one arm per variant; floats and datetimes,
/// which the configuration schema never reads, become `Other`.
#[verifier::external_body]
fn toml_value_tree(value: &toml::Value) -> TomlValue {
    match value {
        toml::Value::String(s) => TomlValue::Str { value: s.clone() },
        toml::Value::Integer(i) => TomlValue::Int { value: *i },
        toml::Value::Boolean(b) => TomlValue::Bool { value: *b },
        toml::Value::Float(_) => TomlValue::Other,
        toml::Value::Datetime(_) => TomlValue::Other,
        toml::Value::Array(items) => TomlValue::Array {
            items: items.iter().map(toml_value_tree).collect(),
        },
        toml::Value::Table(t) => TomlValue::Table {
            entries: t.iter().map(|(k, v)| (k.clone(), toml_value_tree(v))).collect(),
        },
    }
}

} // verus!
