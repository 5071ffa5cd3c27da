//! Declaration of `serde_json::Value` for use in signatures and fields.
//!
//! JSON values carried by the hub (method parameters, schema documents,
//! request ids) are opaque to the routing logic: they are stored and handed
//! on, never inspected here.

use vstd::prelude::*;

verus! {

#[verifier::external_type_specification]
#[verifier::external_body]
pub struct ExValue(serde_json::Value);

/// Relies on `serde_json::Value`'s derived `Clone`: the clone equals the
/// original value.
#[verifier::external_body]
pub fn clone_value(v: &serde_json::Value) -> (r: serde_json::Value)
    ensures
        r == *v,
{
    v.clone()
}

/// Relies on `serde_json::Value::Null` being a unit variant: builds the JSON
/// null value.
#[verifier::external_body]
pub fn null_value() -> serde_json::Value {
    serde_json::Value::Null
}

} // verus!
