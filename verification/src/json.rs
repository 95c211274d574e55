//! JSON objects as this library reads and writes them: by their members, each
//! with its text where it is a string.
//!
//! Parsing and printing are the work of `serde_json`.
use crate::text::decimal;
use crate::text::decimal_text;
use crate::text::push_decimal;
use vstd::prelude::*;

verus! {

/// A JSON value.
#[verifier::external_type_specification]
#[verifier::external_body]
pub struct ExValue(serde_json::Value);

/// The members of a JSON object under construction.
#[verifier::external_type_specification]
#[verifier::external_body]
#[verifier::reject_recursive_types(K)]
#[verifier::reject_recursive_types(V)]
pub struct ExObject<K, V>(serde_json::Map<K, V>);

/// The members of an object by their keys: the text of a member that is a string,
/// `None` for any other.
pub type Members = Map<Seq<char>, Option<Seq<char>>>;

/// What reading a text gives: the members of the value, or the message of the
/// error.
pub type Reading = Result<Members, Seq<char>>;

/// The members of a JSON value. One that is no object has none.
pub uninterp spec fn members(value: serde_json::Value) -> Members;

/// The text of a JSON value that is a string.
pub uninterp spec fn string_text(value: serde_json::Value) -> Option<Seq<char>>;

/// The members of an object under construction.
pub uninterp spec fn entries(object: serde_json::Map<String, serde_json::Value>) -> Members;

/// What `serde_json::from_str` reads from a text.
pub uninterp spec fn parsed(text: Seq<char>) -> Reading;

/// What a JSON object whose members are all strings prints as.
pub uninterp spec fn object_text(entries: Members) -> Seq<char>;

/// `serde_json::from_str` reads a JSON text. The text alone determines the value
/// and, where it is no JSON, the message of the error.
#[verifier::external_body]
fn from_str(text: &str) -> (r: Result<serde_json::Value, String>)
    ensures
        match r {
            Ok(value) => parsed(text@) == Reading::Ok(members(value)),
            Err(message) => parsed(text@) == Reading::Err(message@),
        },
{
    match serde_json::from_str::<serde_json::Value>(text) {
        Ok(value) => Ok(value),
        Err(error) => Err(error.to_string()),
    }
}

/// `serde_json::Value::get`, with a string for its index, finds the member of an
/// object under that key, and nothing in a value that is no object.
#[verifier::external_body]
fn get<'a>(value: &'a serde_json::Value, key: &str) -> (r: Option<&'a serde_json::Value>)
    ensures
        match r {
            Some(member) => members(*value).contains_key(key@) && members(*value)[key@]
                == string_text(*member),
            None => !members(*value).contains_key(key@),
        },
{
    value.get(key)
}

/// `serde_json::Value::as_str` returns the text of a string, and `None` for any
/// other value.
pub assume_specification[ serde_json::Value::as_str ](
    value: &serde_json::Value,
) -> (r: Option<&str>)
    ensures
        match r {
            Some(text) => string_text(*value) == Some(text@),
            None => string_text(*value) is None,
        },
;

/// `serde_json::Map::new` makes an object without members.
pub assume_specification[ serde_json::Map::<String, serde_json::Value>::new ](
) -> (r: serde_json::Map<String, serde_json::Value>)
    ensures
        entries(r) == Members::empty(),
;

/// `serde_json::Map::insert` puts a value under a key, here a string.
#[verifier::external_body]
fn insert(object: &mut serde_json::Map<String, serde_json::Value>, key: String, text: String)
    ensures
        entries(*final(object)) == entries(*old(object)).insert(key@, Some(text@)),
{
    object.insert(key, serde_json::Value::String(text));
}

/// The `Display` of `serde_json::Value` prints a value as compact JSON, the members
/// of an object in the order of their keys, in which the map keeps them. Where they
/// are all strings, they alone determine the text, and reading the text gives them
/// back.
#[verifier::external_body]
fn print(object: serde_json::Map<String, serde_json::Value>) -> (r: String)
    requires
        forall|key: Seq<char>|
            #[trigger] entries(object).contains_key(key) ==> entries(object)[key] is Some,
    ensures
        r@ == object_text(entries(object)),
        parsed(r@) == Reading::Ok(entries(object)),
{
    serde_json::Value::Object(object).to_string()
}

/// The text of the member under `key`, where the value has one that is a string.
pub open spec fn string_member(members: Members, key: Seq<char>) -> Option<
    Seq<char>,
> {
    if members.contains_key(key) {
        members[key]
    } else {
        None
    }
}

/// Reads a JSON text and finds the string under `key`: an error where the text is
/// no JSON, `None` where there is no such member or it is no string.
pub fn read_string_member(text: &str, key: &str) -> (r: Result<Option<String>, String>)
    ensures
        match r {
            Ok(found) => parsed(text@) is Ok && match found {
                Some(s) => string_member(parsed(text@)->Ok_0, key@) == Some(s@),
                None => string_member(parsed(text@)->Ok_0, key@) is None,
            },
            Err(message) => parsed(text@) == Reading::Err(message@),
        },
{
    match from_str(text) {
        Ok(value) => match get(&value, key) {
            Some(member) => match member.as_str() {
                Some(s) => Ok(Some(s.to_owned())),
                None => Ok(None),
            },
            None => Ok(None),
        },
        Err(message) => Err(message),
    }
}

/// The members of a die's payload: its value, the roll it stands for, and the sum.
pub open spec fn payload_members(value: u32, sides: u32) -> Members {
    map![
        "value"@ => Some(decimal(value as nat)),
        "roll"@ => Some("1d"@ + decimal(sides as nat)),
        "sum"@ => Some(decimal(value as nat)),
    ]
}

/// The payload of the trigger that a die fires: a JSON object of three strings,
/// the die standing for a roll of its own.
pub fn roll_payload(value: u32, sides: u32) -> (payload: String)
    ensures
        payload@ == object_text(payload_members(value, sides)),
        parsed(payload@) == Reading::Ok(payload_members(value, sides)),
{
    let mut object = serde_json::Map::new();
    insert(&mut object, "value".to_owned(), decimal_text(value as u64));
    let mut roll = "1d".to_owned();
    push_decimal(&mut roll, sides as u64);
    insert(&mut object, "roll".to_owned(), roll);
    insert(&mut object, "sum".to_owned(), decimal_text(value as u64));
    assert(entries(object) =~= payload_members(value, sides));
    print(object)
}

} // verus!
