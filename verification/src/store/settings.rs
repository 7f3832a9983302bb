//! Changing one field of the stored configuration.
use serde_json::Value;
use vstd::prelude::*;

verus! {

/// `serde_json::Value`, a JSON value.
#[verifier::external_type_specification]
#[verifier::external_body]
pub struct ExValue(serde_json::Value);

/// `serde_json::Map`, a JSON object.
#[verifier::external_type_specification]
#[verifier::external_body]
#[verifier::reject_recursive_types(K)]
#[verifier::reject_recursive_types(V)]
pub struct ExObject<K, V>(serde_json::Map<K, V>);

/// The members of a `serde_json::Map`.
pub uninterp spec fn members_of(object: serde_json::Map<String, serde_json::Value>) -> Map<
    Seq<char>,
    serde_json::Value,
>;

/// The members of the JSON object that `serde_json::from_str` reads in a text;
/// `None` where there is none.
pub uninterp spec fn json_object(s: Seq<char>) -> Option<Map<Seq<char>, serde_json::Value>>;

/// The JSON value that `serde_json::from_str` reads in a text; `None` where
/// there is none.
pub uninterp spec fn json_value(s: Seq<char>) -> Option<serde_json::Value>;

/// The `Value::String` of `serde_json` that holds a text.
pub uninterp spec fn json_string(s: Seq<char>) -> serde_json::Value;

/// The compact text of a JSON object, as `Value::to_string` of `serde_json`
/// writes it.
pub uninterp spec fn json_text(members: Map<Seq<char>, serde_json::Value>) -> Seq<char>;

/// Calls `serde_json::from_str` for an object.
#[verifier::external_body]
fn read_object(s: &str) -> (r: Option<serde_json::Map<String, Value>>)
    ensures
        (match r {
            Some(object) => Some(members_of(object)),
            None => None,
        }) == json_object(s@),
{
    serde_json::from_str(s).ok()
}

/// Calls `serde_json::from_str` for any value.
#[verifier::external_body]
fn read_value(s: &str) -> (r: Option<Value>)
    ensures
        r == json_value(s@),
{
    serde_json::from_str(s).ok()
}

/// Makes a `Value::String` of `serde_json`.
#[verifier::external_body]
fn string_value(s: &str) -> (r: Value)
    ensures
        r == json_string(s@),
{
    Value::String(s.to_string())
}

/// Calls `serde_json::Map::new`: the object has no member.
#[verifier::external_body]
fn empty_object() -> (r: serde_json::Map<String, Value>)
    ensures
        members_of(r).dom() == Set::<Seq<char>>::empty(),
{
    serde_json::Map::new()
}

/// Calls `serde_json::Map::insert`: the member is added, or its value replaced.
#[verifier::external_body]
fn insert_member(object: &mut serde_json::Map<String, Value>, key: &str, value: Value)
    ensures
        members_of(*final(object)) == members_of(*old(object)).insert(key@, value),
{
    object.insert(key.to_string(), value);
}

/// Writes a JSON object by `Value::to_string` of `serde_json`. An object keeps its
/// members in the order of their names, so the text depends on them alone. How
/// JSON is written is not restated here.
#[verifier::external_body]
fn write_object(object: serde_json::Map<String, Value>) -> (r: String)
    ensures
        r@ == json_text(members_of(object)),
{
    Value::Object(object).to_string()
}

/// The members of the configuration with one field set. What is stored counts
/// where it is a JSON object; a value that is no JSON is taken as a string.
pub open spec fn config_with(stored: Option<Seq<char>>, key: Seq<char>, value: Seq<char>) -> Map<
    Seq<char>,
    Value,
> {
    stored_members(stored).insert(
        key,
        match json_value(value) {
            Some(v) => v,
            None => json_string(value),
        },
    )
}

/// The members of the configuration that is stored; none where it is no JSON
/// object.
pub open spec fn stored_members(stored: Option<Seq<char>>) -> Map<Seq<char>, Value> {
    match stored {
        Some(s) => match json_object(s) {
            Some(members) => members,
            None => Map::empty(),
        },
        None => Map::empty(),
    }
}

/// Sets one member of an object and writes the object.
pub fn object_with_member(
    object: serde_json::Map<String, Value>,
    key: &str,
    value: Value,
) -> (r: String)
    ensures
        r@ == json_text(members_of(object).insert(key@, value)),
{
    let mut object = object;
    insert_member(&mut object, key, value);
    write_object(object)
}

/// Updates or inserts an individual field into the JSON configuration object.
pub fn config_with_field(stored: Option<&str>, key: &str, value: &str) -> (r: String)
    ensures
        r@ == json_text(
            config_with(
                match stored {
                    Some(s) => Some(s@),
                    None => None,
                },
                key@,
                value@,
            ),
        ),
{
    let object = match stored {
        Some(s) => match read_object(s) {
            Some(object) => object,
            None => empty_object(),
        },
        None => empty_object(),
    };
    assert(members_of(object) =~= stored_members(
        match stored {
            Some(s) => Some(s@),
            None => None,
        },
    ));
    let value = match read_value(value) {
        Some(v) => v,
        None => string_value(value),
    };
    object_with_member(object, key, value)
}

/// Setting a field leaves every other field as it was.
pub proof fn other_members_stay(
    stored: Option<Seq<char>>,
    key: Seq<char>,
    value: Seq<char>,
    other: Seq<char>,
)
    requires
        other != key,
    ensures
        config_with(stored, key, value).contains_key(key),
        config_with(stored, key, value).contains_key(other) == stored_members(stored).contains_key(
            other,
        ),
        stored_members(stored).contains_key(other) ==> config_with(stored, key, value)[other]
            == stored_members(stored)[other],
{
}

} // verus!
