//! The structured-data decoder, a thin trusted boundary around serde_yaml.
//!
//! The parsing engine never looks inside a decoded value: it produces the
//! frontmatter payload bytes, hands them to the decoder, and carries the
//! resulting `serde_yaml::Value` through to the caller. The value is opaque
//! here; what the contracts say about it goes through `yaml_repr` (the text
//! the value renders to) and `yaml_is_empty_mapping`.

use vstd::prelude::*;

verus! {

/// Declares serde_yaml's dynamically typed value tree (mapping / sequence /
/// scalar) so that verified code can hold and return values of it. The tree
/// is opaque to the verifier.
#[verifier::external_type_specification]
#[verifier::external_body]
pub struct ExValue(serde_yaml::Value);

/// Declares serde_yaml's error type so that the decode wrapper can return it.
#[verifier::external_type_specification]
#[verifier::external_body]
pub struct ExError(serde_yaml::Error);

/// The canonical YAML text that a value renders to; two values with the same
/// rendering hold the same data. Uninterpreted: the rendering is serde_yaml's.
pub uninterp spec fn yaml_repr(v: serde_yaml::Value) -> Seq<char>;

/// True of a value that is the empty YAML mapping.
pub uninterp spec fn yaml_is_empty_mapping(v: serde_yaml::Value) -> bool;

/// The outcome of decoding a byte payload as YAML: `None` when the decoder
/// rejects the payload, otherwise the rendering of the decoded value.
/// Decoding is a function of the bytes alone.
pub uninterp spec fn yaml_decoded(s: Seq<u8>) -> Option<Seq<char>>;

/// The error of the library: the isolated frontmatter payload was not valid
/// structured-data syntax. All other outcomes are normal results.
#[derive(Debug, PartialEq, Eq, Structural)]
pub struct DecodeError;

/// Relies on serde_yaml::Mapping::new: a newly created mapping is empty.
#[verifier::external_body]
pub(crate) fn empty_mapping() -> (r: serde_yaml::Value)
    ensures
        yaml_is_empty_mapping(r),
{
    serde_yaml::Value::Mapping(serde_yaml::Mapping::new())
}

/// Relies on serde_yaml::from_slice: it decodes a byte slice of YAML text
/// into a single value; whether it succeeds, and what comes back, depend on
/// the bytes alone.
#[verifier::external_body]
pub(crate) fn decode_yaml(payload: &[u8]) -> (r: Result<serde_yaml::Value, serde_yaml::Error>)
    ensures
        r is Ok <==> yaml_decoded(payload@) is Some,
        r matches Ok(v) ==> Some(yaml_repr(v)) == yaml_decoded(payload@),
{
    serde_yaml::from_slice::<serde_yaml::Value>(payload)
}

} // verus!
