//! TOML documents built with the `toml` crate's `Value` and `Map`, the
//! mathematical model of what they hold, and their rendering as text.
use vstd::prelude::*;

verus! {

/// What a TOML value holds: a string, an integer, a boolean, an array of
/// values, or a table from keys to values.
pub enum TomlDoc {
    Integer(int),
    Str(Seq<char>),
    Boolean(bool),
    Array(Seq<TomlDoc>),
    Table(Map<Seq<char>, TomlDoc>),
}

#[verifier::external_type_specification]
#[verifier::external_body]
pub struct ExTomlValue(toml::Value);

#[verifier::external_type_specification]
#[verifier::external_body]
#[verifier::reject_recursive_types(K)]
#[verifier::reject_recursive_types(V)]
pub struct ExTomlMap<K, V>(toml::map::Map<K, V>);

#[verifier::external_type_specification]
#[verifier::external_body]
pub struct ExTomlSerError(toml::ser::Error);

/// A TOML table as the `toml` crate keeps it.
pub type TomlTable = toml::map::Map<String, toml::Value>;

/// What a `toml::Value` holds. Floats and datetimes, which nothing here
/// builds, are not described.
pub uninterp spec fn value_contents(v: toml::Value) -> TomlDoc;

/// What a `toml::map::Map` holds: each key's value.
pub uninterp spec fn table_contents(m: TomlTable) -> Map<Seq<char>, TomlDoc>;

/// A table with no entries.
pub open spec fn empty_table() -> Map<Seq<char>, TomlDoc> {
    Map::empty()
}

/// The models of a list of values.
pub open spec fn contents_all(items: Seq<toml::Value>) -> Seq<TomlDoc> {
    items.map_values(|x: toml::Value| value_contents(x))
}

/// An empty table.
/// Trusted: `toml::map::Map::new`, which holds no entry.
#[verifier::external_body]
pub(crate) fn new_table() -> (m: TomlTable)
    ensures
        table_contents(m) == empty_table(),
{
    toml::map::Map::new()
}

/// Inserts `value` under `key`, replacing any value the key had.
/// Trusted: `toml::map::Map::insert`, a map insertion (its previous value,
/// which it returns, is dropped).
#[verifier::external_body]
pub(crate) fn table_insert(m: &mut TomlTable, key: String, value: toml::Value)
    ensures
        table_contents(*final(m)) == table_contents(*old(m)).insert(key@, value_contents(value)),
{
    m.insert(key, value);
}

/// A string value.
/// Trusted: the `toml::Value::String` variant, which holds the string.
#[verifier::external_body]
pub(crate) fn string_value(s: String) -> (v: toml::Value)
    ensures
        value_contents(v) == TomlDoc::Str(s@),
{
    toml::Value::String(s)
}

/// An integer value.
/// Trusted: the `toml::Value::Integer` variant, which holds the integer.
#[verifier::external_body]
pub(crate) fn integer_value(i: i64) -> (v: toml::Value)
    ensures
        value_contents(v) == TomlDoc::Integer(i as int),
{
    toml::Value::Integer(i)
}

/// A boolean value.
/// Trusted: the `toml::Value::Boolean` variant, which holds the boolean.
#[verifier::external_body]
pub(crate) fn boolean_value(b: bool) -> (v: toml::Value)
    ensures
        value_contents(v) == TomlDoc::Boolean(b),
{
    toml::Value::Boolean(b)
}

/// An array value.
/// Trusted: the `toml::Value::Array` variant, which holds the items in order.
#[verifier::external_body]
pub(crate) fn array_value(items: Vec<toml::Value>) -> (v: toml::Value)
    ensures
        value_contents(v) == TomlDoc::Array(contents_all(items@)),
{
    toml::Value::Array(items)
}

/// A table value.
/// Trusted: the `toml::Value::Table` variant, which holds the map.
#[verifier::external_body]
pub(crate) fn table_value(m: TomlTable) -> (v: toml::Value)
    ensures
        value_contents(v) == TomlDoc::Table(table_contents(m)),
{
    toml::Value::Table(m)
}

/// The text that `toml::to_string_pretty` gives for a value holding `doc`,
/// or `None` where it reports an error.
pub uninterp spec fn toml_pretty(doc: TomlDoc) -> Option<Seq<char>>;

/// What the generators write: the rendered text, or the empty string where
/// rendering fails.
pub open spec fn rendered_or_empty(doc: TomlDoc) -> Seq<char> {
    match toml_pretty(doc) {
        Some(s) => s,
        None => Seq::empty(),
    }
}

/// Renders a value with `toml::to_string_pretty`.
/// Trusted: the call succeeds exactly when [`toml_pretty`] has text for what
/// the value holds, and then returns that text; the text itself is left to
/// the name.
#[verifier::external_body]
fn to_string_pretty(v: &toml::Value) -> (r: Result<String, toml::ser::Error>)
    ensures
        r is Ok <==> toml_pretty(value_contents(*v)) is Some,
        r matches Ok(s) ==> s@ == toml_pretty(value_contents(*v))->0,
{
    toml::to_string_pretty(v)
}

/// The pretty TOML text of a value, or the empty string where the
/// serializer reports an error.
pub fn render(v: &toml::Value) -> (s: String)
    ensures
        s@ == rendered_or_empty(value_contents(*v)),
{
    match to_string_pretty(v) {
        Ok(s) => s,
        Err(_) => String::new(),
    }
}

} // verus!
