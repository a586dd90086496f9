//! The JSON values that tool descriptors carry, as `serde_json` represents them.
//!
//! The registry never looks inside a JSON document beyond asking whether a value
//! is an object. The types are therefore opaque here, and the few `serde_json`
//! operations that the registry needs are stated, not proved.

use vstd::prelude::*;

verus! {

/// `serde_json::Value`, opaque to the verifier.
#[verifier::external_type_specification]
#[verifier::external_body]
pub struct ExJsonValue(serde_json::Value);

/// `serde_json::Map`, opaque to the verifier.
#[verifier::external_type_specification]
#[verifier::external_body]
#[verifier::reject_recursive_types(K)]
#[verifier::reject_recursive_types(V)]
pub struct ExJsonMap<K, V>(serde_json::Map<K, V>);

/// A JSON object: string keys mapped to JSON values.
pub type JsonObject = serde_json::Map<String, serde_json::Value>;

/// The map that `serde_json::Value::as_object` finds in a value: the members of
/// the value when it is a JSON object, nothing for every other kind of value.
pub uninterp spec fn object_of(value: serde_json::Value) -> Option<JsonObject>;

/// The keys that a JSON object holds.
pub uninterp spec fn object_keys(object: JsonObject) -> Set<Seq<char>>;

/// Calls `serde_json::Value::as_object`. The contract names the outcome
/// [`object_of`]: a reference to the value's own map, or `None` when the value
/// is not an object.
#[verifier::external_body]
pub(crate) fn as_object(value: &serde_json::Value) -> (found: Option<&JsonObject>)
    ensures
        match found {
            Some(object) => object_of(*value) == Some(*object),
            None => object_of(*value).is_none(),
        },
{
    value.as_object()
}

/// Calls `Clone::clone` of `serde_json::Map`. The contract claims that the copy
/// equals the object it was made from.
#[verifier::external_body]
pub(crate) fn clone_object(object: &JsonObject) -> (copy: JsonObject)
    ensures
        copy == *object,
{
    object.clone()
}

/// Calls `serde_json::Map::new`. The contract claims that the new object holds
/// no key.
#[verifier::external_body]
pub(crate) fn empty_object() -> (object: JsonObject)
    ensures
        object_keys(object) == Set::<Seq<char>>::empty(),
{
    serde_json::Map::new()
}

/// Asks `schemars` for the schema of a JSON object with arbitrary members:
/// `SchemaGenerator::default().into_root_schema_for` on `serde_json::Map`, and
/// `Schema::to_value` on what it returns. Nothing is claimed of the value.
#[verifier::external_body]
pub(crate) fn any_object_schema() -> (schema: serde_json::Value) {
    schemars::SchemaGenerator::default().into_root_schema_for::<JsonObject>().to_value()
}

} // verus!
