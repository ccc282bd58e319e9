//! The trusted surface over the `toml` crate: language data is an
//! opaque `toml::Value`, parsed from a file's text.

use vstd::prelude::*;

verus! {

#[verifier::external_type_specification]
#[verifier::external_body]
pub struct ExTomlValue(toml::Value);

#[verifier::external_type_specification]
#[verifier::external_body]
pub struct ExTomlDeError(toml::de::Error);

/// Whether a text is a well-formed TOML document.
pub uninterp spec fn toml_ok(s: Seq<char>) -> bool;

/// The value a well-formed TOML document parses to.
pub uninterp spec fn toml_of(s: Seq<char>) -> toml::Value;

/// Whether a value is map-like: the kind of value whose named
/// top-level fields can become a render context.
pub uninterp spec fn value_is_map(v: toml::Value) -> bool;

/// The top-level fields of a value that hold a plain string.
pub uninterp spec fn value_strs(v: toml::Value) -> Map<Seq<char>, Seq<char>>;

/// The top-level fields of a value that hold a list of plain strings.
pub uninterp spec fn value_str_lists(v: toml::Value) -> Map<Seq<char>, Seq<Seq<char>>>;

/// Relies on `toml::from_str`: parses the text as a TOML document —
/// a function of the text alone — succeeding exactly on well-formed
/// TOML; a parsed document is a table, so its value is map-like.
#[verifier::external_body]
pub(crate) fn parse_toml(s: &str) -> (r: Result<toml::Value, toml::de::Error>)
    ensures
        r is Ok <==> toml_ok(s@),
        r is Ok ==> r->Ok_0 == toml_of(s@) && value_is_map(toml_of(s@)),
{
    toml::from_str::<toml::Value>(s)
}

/// Relies on the `Display` impl of `toml::de::Error` for a
/// human-readable account of a parse failure.
#[verifier::external_body]
pub(crate) fn toml_error_string(e: &toml::de::Error) -> (r: String) {
    format!("{}", e)
}

} // verus!
