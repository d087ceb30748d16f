//! The table of well-known services: which name goes with which port.
//!
//! The table is a JSON object whose keys are port numbers written in decimal
//! and whose values are service names. It is kept as the JSON object that
//! `serde_json` parsed; what that crate does is stated here, not proved.

use crate::text::{decimal, render_decimal, text_of};
use vstd::prelude::*;

verus! {

/// `serde_json::Map`, the object of a JSON document. Opaque to the verifier:
/// what it holds is `object_entries`.
#[verifier::external_type_specification]
#[verifier::external_body]
#[verifier::reject_recursive_types(K)]
#[verifier::reject_recursive_types(V)]
pub struct ExJsonMap<K, V>(serde_json::Map<K, V>);

/// `serde_json::Value`, any JSON value. Opaque to the verifier.
#[verifier::external_type_specification]
#[verifier::external_body]
pub struct ExJsonValue(serde_json::Value);

/// `serde_json::Error`, why a text is not the JSON that was asked for.
/// Opaque to the verifier.
#[verifier::external_type_specification]
#[verifier::external_body]
pub struct ExJsonError(serde_json::Error);

/// What a JSON object holds: for each key, the text of its value where the
/// value is a JSON string, and `None` where it is anything else.
pub uninterp spec fn object_entries(object: serde_json::Map<String, serde_json::Value>) -> Map<
    Seq<char>,
    Option<Seq<char>>,
>;

/// What `serde_json::from_str` makes of a text that is read as a JSON object:
/// the entries of the object, or `None` where the text is not one.
pub uninterp spec fn json_object(text: Seq<char>) -> Option<Map<Seq<char>, Option<Seq<char>>>>;

/// Calls `serde_json::from_str` to read `text` as one JSON object.
///
/// Assumed: the outcome depends on the text alone. It is `Ok` exactly where
/// `json_object` gives entries, and the object then holds those entries.
#[verifier::external_body]
fn parse_object(text: &str) -> (parsed: Result<
    serde_json::Map<String, serde_json::Value>,
    serde_json::Error,
>)
    ensures
        parsed is Ok <==> json_object(text@) is Some,
        parsed matches Ok(object) ==> json_object(text@) == Some(object_entries(object)),
{
    serde_json::from_str::<serde_json::Map<String, serde_json::Value>>(text)
}

/// Calls `serde_json::Map::keys` and copies the keys out.
///
/// Assumed: every key of the object is among the result, and the result
/// holds nothing but keys of the object.
#[verifier::external_body]
fn object_keys(object: &serde_json::Map<String, serde_json::Value>) -> (keys: Vec<String>)
    ensures
        forall|i: int|
            0 <= i < keys.len() ==> object_entries(*object).dom().contains(#[trigger] keys[i]@),
        forall|key: Seq<char>| #[trigger]
            object_entries(*object).dom().contains(key) ==> exists|i: int|
                0 <= i < keys.len() && #[trigger] keys[i]@ == key,
{
    object.keys().cloned().collect()
}

/// Calls `serde_json::Map::get`, and `serde_json::Value::as_str` on what it
/// finds.
///
/// Assumed: the result is `None` exactly where the object has no such key;
/// otherwise it holds the text of the value where the value is a JSON string,
/// and `None` where it is not.
#[verifier::external_body]
fn object_text(object: &serde_json::Map<String, serde_json::Value>, key: &str) -> (found: Option<
    Option<String>,
>)
    ensures
        found is Some <==> object_entries(*object).dom().contains(key@),
        found matches Some(value) ==> text_of(value) == object_entries(*object)[key@],
{
    object.get(key).map(|value| value.as_str().map(String::from))
}

/// Whether every value of a JSON object is a JSON string.
pub open spec fn all_text(entries: Map<Seq<char>, Option<Seq<char>>>) -> bool {
    forall|key: Seq<char>| #[trigger] entries.dom().contains(key) ==> entries[key] is Some
}

/// Why a text cannot serve as the service table.
#[derive(Clone, Copy, Debug, PartialEq, Eq, Structural)]
pub enum TableError {
    /// The text is not a JSON object.
    NotAnObject,
    /// Some value of the object is not a string.
    NotAName,
}

/// The service names by port, as read from a JSON object.
pub struct ServiceTable {
    object: serde_json::Map<String, serde_json::Value>,
}

impl ServiceTable {
    /// The table's invariant: every value is a service name.
    pub closed spec fn wf(&self) -> bool {
        all_text(object_entries(self.object))
    }

    /// The service names by key.
    pub closed spec fn view(&self) -> Map<Seq<char>, Seq<char>> {
        Map::new(
            |key: Seq<char>| object_entries(self.object).dom().contains(key),
            |key: Seq<char>| object_entries(self.object)[key]->0,
        )
    }

    /// The service name that goes with `port`: the value under the port's
    /// decimal digits, and the empty text where the table has no such key.
    pub open spec fn name_of(&self, port: u16) -> Seq<char> {
        if self@.dom().contains(decimal(port as nat)) {
            self@[decimal(port as nat)]
        } else {
            Seq::<char>::empty()
        }
    }

    /// Takes a JSON object as the table, if all its values are strings.
    pub fn from_object(object: serde_json::Map<String, serde_json::Value>) -> (made: Result<
        ServiceTable,
        TableError,
    >)
        ensures
            made is Ok <==> all_text(object_entries(object)),
            made matches Ok(table) ==> table.wf() && table@ == names_of(object_entries(object)),
            made matches Err(error) ==> error == TableError::NotAName,
    {
        let keys = object_keys(&object);
        let ghost entries = object_entries(object);
        let mut i: usize = 0;
        while i < keys.len()
            invariant
                i <= keys.len(),
                entries == object_entries(object),
                forall|j: int|
                    0 <= j < keys.len() ==> entries.dom().contains(#[trigger] keys[j]@),
                forall|j: int| 0 <= j < i ==> entries[#[trigger] keys[j]@] is Some,
            decreases keys.len() - i,
        {
            match object_text(&object, keys[i].as_str()) {
                Some(Some(_)) => {},
                _ => {
                    assert(entries.dom().contains(keys[i as int]@));
                    return Err(TableError::NotAName);
                },
            }
            i = i + 1;
        }
        proof {
            assert forall|key: Seq<char>| #[trigger]
                entries.dom().contains(key) implies entries[key] is Some by {
                let j = choose|j: int| 0 <= j < keys.len() && #[trigger] keys[j]@ == key;
                assert(entries[keys[j]@] is Some);
            }
        }
        let table = ServiceTable { object };
        assert(table@ =~= names_of(entries));
        Ok(table)
    }

    /// Reads the table from the text of a JSON document.
    pub fn from_json(text: &str) -> (made: Result<ServiceTable, TableError>)
        ensures
            made is Ok <==> (json_object(text@) matches Some(entries) && all_text(entries)),
            made matches Ok(table) ==> table.wf() && table@ == names_of(json_object(text@)->0),
            made matches Err(error) ==> error == (if json_object(text@) is None {
                TableError::NotAnObject
            } else {
                TableError::NotAName
            }),
    {
        match parse_object(text) {
            Ok(object) => ServiceTable::from_object(object),
            Err(_) => Err(TableError::NotAnObject),
        }
    }

    /// The service name of `port`, empty where the table does not list it.
    pub fn service_name(&self, port: u16) -> (name: String)
        requires
            self.wf(),
        ensures
            name@ == self.name_of(port),
    {
        let key = render_decimal(port as u64);
        match object_text(&self.object, key.as_str()) {
            Some(Some(name)) => name,
            _ => String::new(),
        }
    }
}

/// The service names of a JSON object all of whose values are strings.
pub open spec fn names_of(entries: Map<Seq<char>, Option<Seq<char>>>) -> Map<Seq<char>, Seq<char>> {
    Map::new(|key: Seq<char>| entries.dom().contains(key), |key: Seq<char>| entries[key]->0)
}

} // verus!
