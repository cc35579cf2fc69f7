//! TOML documents, as far as the configuration reads them.

use vstd::prelude::*;

verus! {

/// What a TOML value holds, as far as the configuration reads it: text, an
/// integer, an array, a table, or something else.
pub ghost enum Toml {
    Text(Seq<char>),
    Integer(int),
    Array(Seq<Toml>),
    Table(Map<Seq<char>, Toml>),
    Other,
}

/// A value of a TOML document, as the crate `toml` holds it.
#[verifier::external_type_specification]
#[verifier::external_body]
pub struct ExValue(toml::Value);

/// A table of a TOML document, as the crate `toml` holds it.
#[verifier::external_type_specification]
#[verifier::external_body]
#[verifier::reject_recursive_types(K)]
#[verifier::reject_recursive_types(V)]
pub struct ExTable<K, V>(toml::map::Map<K, V>);

/// The reason for which the crate `toml` refuses a text.
#[verifier::external_type_specification]
#[verifier::external_body]
pub struct ExParseError(toml::de::Error);

/// The document that a text is in TOML, by key, or `None` where the text is
/// no TOML document.
pub uninterp spec fn parsed_document(text: Seq<char>) -> Option<Map<Seq<char>, Toml>>;

/// What a table holds, by key.
pub uninterp spec fn table_model(table: toml::map::Map<String, toml::Value>) -> Map<
    Seq<char>,
    Toml,
>;

/// What a value holds.
pub uninterp spec fn value_model(value: toml::Value) -> Toml;

/// `toml::Table`'s `FromStr`: parses a text as a TOML document. The result
/// depends on the text alone; it is the table of the document's top level,
/// or an error where the text is no TOML document.
#[verifier::external_body]
pub(crate) fn parse_document(text: &str) -> (r: Result<
    toml::map::Map<String, toml::Value>,
    toml::de::Error,
>)
    ensures
        match r {
            Ok(table) => parsed_document(text@) == Some(table_model(table)),
            Err(_) => parsed_document(text@) is None,
        },
{
    text.parse::<toml::Table>()
}

/// `toml::map::Map::get`: the value that the table holds under `key`, if it
/// holds one.
#[verifier::external_body]
pub(crate) fn table_get<'a>(table: &'a toml::map::Map<String, toml::Value>, key: &str) -> (r:
    Option<&'a toml::Value>)
    ensures
        match r {
            Some(value) => table_model(*table).contains_key(key@) && table_model(*table)[key@]
                == value_model(*value),
            None => !table_model(*table).contains_key(key@),
        },
{
    table.get(key)
}

/// `toml::Value::as_table`: the table, where the value is one.
#[verifier::external_body]
pub(crate) fn value_as_table(value: &toml::Value) -> (r: Option<
    &toml::map::Map<String, toml::Value>,
>)
    ensures
        match r {
            Some(table) => value_model(*value) == Toml::Table(table_model(*table)),
            None => !(value_model(*value) is Table),
        },
{
    value.as_table()
}

/// `toml::Value::as_array`: the items, in order, where the value is an array.
#[verifier::external_body]
pub(crate) fn value_as_array(value: &toml::Value) -> (r: Option<&Vec<toml::Value>>)
    ensures
        match r {
            Some(items) => value_model(*value) == Toml::Array(
                Seq::new(items@.len(), |i: int| value_model(items@[i])),
            ),
            None => !(value_model(*value) is Array),
        },
{
    value.as_array()
}

/// `toml::Value::as_integer`: the number, where the value is an integer.
#[verifier::external_body]
pub(crate) fn value_as_integer(value: &toml::Value) -> (r: Option<i64>)
    ensures
        match r {
            Some(n) => value_model(*value) == Toml::Integer(n as int),
            None => !(value_model(*value) is Integer),
        },
{
    value.as_integer()
}

/// `toml::Value::as_str`: the text, where the value is a string.
#[verifier::external_body]
pub(crate) fn value_as_str(value: &toml::Value) -> (r: Option<&str>)
    ensures
        match r {
            Some(text) => value_model(*value) == Toml::Text(text@),
            None => !(value_model(*value) is Text),
        },
{
    value.as_str()
}

} // verus!
