//! JSON documents, held as `serde_json` holds them.

use vstd::prelude::*;

use crate::address::Address;
use crate::hex_text;

verus! {

/// What a JSON document says, as far as documents are composed here.
pub enum Json {
    /// `null`.
    Null,
    /// A string.
    Text(Seq<char>),
    /// An object: its members by name, in no order.
    Object(Map<Seq<char>, Json>),
    /// A boolean, a number or an array.
    Other,
}

/// `serde_json::Value`, a JSON document.
#[verifier::external_type_specification]
#[verifier::external_body]
pub struct ExValue(serde_json::Value);

/// `serde_json::Map`, the members of a JSON object.
#[verifier::external_type_specification]
#[verifier::external_body]
#[verifier::reject_recursive_types(K)]
#[verifier::reject_recursive_types(V)]
pub struct ExMembers<K, V>(serde_json::Map<K, V>);

/// What a JSON document holds.
pub uninterp spec fn json_of(value: serde_json::Value) -> Json;

/// What the members of a JSON object hold, by name.
pub uninterp spec fn members_of(members: serde_json::Map<String, serde_json::Value>) -> Map<
    Seq<char>,
    Json,
>;

/// `serde_json::Value::Null` is the document `null`.
#[verifier::external_body]
pub(crate) fn null() -> (value: serde_json::Value)
    ensures
        json_of(value) == Json::Null,
{
    serde_json::Value::Null
}

/// `serde_json::Value::from` makes a string document of a `String`.
#[verifier::external_body]
pub(crate) fn text(content: String) -> (value: serde_json::Value)
    ensures
        json_of(value) == Json::Text(content@),
{
    serde_json::Value::from(content)
}

/// `serde_json::Value::Object` makes a document of the members of an object.
#[verifier::external_body]
pub(crate) fn object(members: serde_json::Map<String, serde_json::Value>) -> (value:
    serde_json::Value)
    ensures
        json_of(value) == Json::Object(members_of(members)),
{
    serde_json::Value::Object(members)
}

/// `serde_json::Map::new` starts an object without members.
#[verifier::external_body]
pub(crate) fn no_members() -> (members: serde_json::Map<String, serde_json::Value>)
    ensures
        members_of(members) == (Map::<Seq<char>, Json>::empty()),
{
    serde_json::Map::new()
}

/// `serde_json::Map::insert` puts a member under a name, in place of the one
/// that stood there.
#[verifier::external_body]
pub(crate) fn insert(
    members: &mut serde_json::Map<String, serde_json::Value>,
    name: &str,
    value: serde_json::Value,
)
    ensures
        members_of(*final(members)) == members_of(*old(members)).insert(name@, json_of(value)),
{
    members.insert(name.to_string(), value);
}

/// `serde_json::to_value` on a `web3::types::H160`, whose `Serialize`
/// implementation writes the string of `0x` and all twenty bytes as lower case
/// hexadecimal digits, and never fails.
#[verifier::external_body]
pub(crate) fn address_text(address: &Address) -> (value: serde_json::Value)
    ensures
        json_of(value) == Json::Text(hex_text::prefixed_hex(address@)),
{
    serde_json::to_value(web3::types::H160::from(address.bytes)).unwrap()
}

} // verus!
