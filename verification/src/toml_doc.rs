//! Trusted interface to the `toml` crate: the outside types the
//! descriptor parser handles, names for what the parser and the value
//! accessors return, and the contracts under which they are called.
use vstd::prelude::*;

verus! {

#[verifier::external_type_specification]
#[verifier::external_body]
pub struct ExTomlValue(toml::Value);

#[verifier::external_type_specification]
#[verifier::external_body]
#[verifier::reject_recursive_types(K)]
#[verifier::reject_recursive_types(V)]
pub struct ExTomlMap<K, V>(toml::map::Map<K, V>);

/// Whether `toml::from_str` accepts `s` as a document; parsing depends
/// on the text alone.
pub uninterp spec fn toml_parses(s: Seq<char>) -> bool;

/// The top-level key-value entries that a parsed document table holds.
pub uninterp spec fn table_map(t: toml::map::Map<String, toml::Value>) -> Map<
    Seq<char>,
    toml::Value,
>;

/// The table that parsing `s` yields; like acceptance, it depends on
/// the text alone.
pub uninterp spec fn toml_table_of(s: Seq<char>) -> Map<Seq<char>, toml::Value>;

/// The string that `toml::Value::as_str` extracts, when the value is a
/// string.
pub uninterp spec fn value_str_of(v: toml::Value) -> Option<Seq<char>>;

/// The integer that `toml::Value::as_integer` extracts, when the value
/// is an integer.
pub uninterp spec fn value_int_of(v: toml::Value) -> Option<i64>;

/// The boolean that `toml::Value::as_bool` extracts, when the value is
/// a boolean.
pub uninterp spec fn value_bool_of(v: toml::Value) -> Option<bool>;

/// Relies on `toml::from_str::<toml::Table>`: a well-formed document
/// yields its table of top-level entries, a malformed one a diagnostic,
/// and which of the two happens depends on the text alone.
#[verifier::external_body]
pub(crate) fn parse_toml_document(s: &str) -> (r: Result<
    toml::map::Map<String, toml::Value>,
    String,
>)
    ensures
        r is Ok <==> toml_parses(s@),
        r is Ok ==> table_map(r->Ok_0) == toml_table_of(s@),
{
    match toml::from_str::<toml::Table>(s) {
        Ok(t) => Ok(t),
        Err(e) => Err(e.to_string()),
    }
}

/// Relies on `toml::map::Map::get`: exact-match lookup of a top-level
/// key among the table's entries.
#[verifier::external_body]
pub(crate) fn table_get<'a>(t: &'a toml::map::Map<String, toml::Value>, key: &str) -> (r: Option<
    &'a toml::Value,
>)
    ensures
        r is Some <==> table_map(*t).contains_key(key@),
        r is Some ==> *r->0 == table_map(*t)[key@],
{
    t.get(key)
}

/// Relies on `toml::Value::as_str`: the string payload of a string
/// value, nothing for any other value.
pub assume_specification<'a>[ toml::Value::as_str ](v: &'a toml::Value) -> (r: Option<&'a str>)
    ensures
        r is Some <==> value_str_of(*v) is Some,
        r is Some ==> r->0@ == value_str_of(*v)->0,
;

/// Relies on `toml::Value::as_integer`: the integer payload of an
/// integer value, nothing for any other value.
pub assume_specification[ toml::Value::as_integer ](v: &toml::Value) -> (r: Option<i64>)
    ensures
        r == value_int_of(*v),
;

/// Relies on `toml::Value::as_bool`: the boolean payload of a boolean
/// value, nothing for any other value.
pub assume_specification[ toml::Value::as_bool ](v: &toml::Value) -> (r: Option<bool>)
    ensures
        r == value_bool_of(*v),
;

} // verus!
