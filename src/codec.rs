//! The YAML and JSON codecs of metadata, which serde_yaml_ng and serde_json
//! provide. What they compute is named here, not restated.
use crate::value::MetadataValue;
use vstd::prelude::*;

verus! {

#[verifier::external_type_specification]
#[verifier::external_body]
pub struct ExJsonValue(serde_json::Value);

/// What YAML text decodes to, `None` where it is not valid YAML.
pub uninterp spec fn yaml_decoded(text: Seq<char>) -> Option<MetadataValue>;

/// What JSON text decodes to, `None` where it is not valid JSON.
pub uninterp spec fn json_decoded(text: Seq<char>) -> Option<MetadataValue>;

/// The YAML text of a value, `None` where it cannot be written.
pub uninterp spec fn yaml_encoded(m: MetadataValue) -> Option<Seq<char>>;

/// Moves a serde_json value into a metadata value, one variant for another:
/// a number becomes its `Display` text, a map its entries in key order.
#[verifier::external_body]
fn from_json(v: serde_json::Value) -> MetadataValue {
    match v {
        serde_json::Value::Null => MetadataValue::Null,
        serde_json::Value::Bool(b) => MetadataValue::Bool(b),
        serde_json::Value::Number(n) => MetadataValue::Number(n.to_string()),
        serde_json::Value::String(s) => MetadataValue::Str(s),
        serde_json::Value::Array(a) => MetadataValue::Array(a.into_iter().map(from_json).collect()),
        serde_json::Value::Object(o) => MetadataValue::Object(
            o.into_iter().map(|(k, x)| (k, from_json(x))).collect(),
        ),
    }
}

/// Copies a metadata value into a serde_json value, one variant for another:
/// a number's text is read back by `serde_json::Number`'s `FromStr`, and is
/// null where it does not parse.
#[verifier::external_body]
fn to_json(m: &MetadataValue) -> serde_json::Value {
    match m {
        MetadataValue::Null => serde_json::Value::Null,
        MetadataValue::Bool(b) => serde_json::Value::Bool(*b),
        MetadataValue::Number(t) => t.parse().map(serde_json::Value::Number).unwrap_or(serde_json::Value::Null),
        MetadataValue::Str(s) => serde_json::Value::String(s.clone()),
        MetadataValue::Array(a) => serde_json::Value::Array(a.iter().map(to_json).collect()),
        MetadataValue::Object(o) => serde_json::Value::Object(
            o.iter().map(|(k, x)| (k.clone(), to_json(x))).collect(),
        ),
    }
}

/// Relies on `serde_yaml_ng::from_str` into a `serde_json::Value`: the result
/// depends on the text alone.
#[verifier::external_body]
pub(crate) fn decode_yaml(text: &str) -> (r: Option<MetadataValue>)
    ensures
        r == yaml_decoded(text@),
{
    serde_yaml_ng::from_str::<serde_json::Value>(text).ok().map(from_json)
}

/// Relies on `serde_json::from_str` into a `serde_json::Value`: the result
/// depends on the text alone.
#[verifier::external_body]
pub(crate) fn decode_json(text: &str) -> (r: Option<MetadataValue>)
    ensures
        r == json_decoded(text@),
{
    serde_json::from_str::<serde_json::Value>(text).ok().map(from_json)
}

/// Relies on `serde_yaml_ng::to_string` of a `serde_json::Value`: the result
/// depends on the value alone.
#[verifier::external_body]
pub(crate) fn encode_yaml(m: &MetadataValue) -> (r: Option<String>)
    ensures
        match r {
            Some(t) => yaml_encoded(*m) == Some(t@),
            None => yaml_encoded(*m) is None,
        },
{
    serde_yaml_ng::to_string(&to_json(m)).ok()
}

} // verus!
