//! Reading the text of a declaration as a TOML document.
use vstd::prelude::*;
use crate::driver::Failure;

verus! {

#[verifier::external_type_specification]
#[verifier::external_body]
pub struct ExTomlError(toml::de::Error);

#[verifier::external_type_specification]
#[verifier::external_body]
pub struct ExTomlValue(toml::Value);

#[verifier::external_type_specification]
#[verifier::external_body]
#[verifier::reject_recursive_types(K)]
#[verifier::reject_recursive_types(V)]
pub struct ExTomlMap<K, V>(toml::map::Map<K, V>);

/// Whether toml's parser accepts this text as a document whose root is a table.
pub uninterp spec fn toml_table_accepts(text: Seq<char>) -> bool;

/// Relies on toml::from_str read into a toml::Table: it fails exactly on text
/// that is not a well-formed TOML document, and depends on the text alone.
#[verifier::external_body]
fn parse_toml_table(text: &str) -> (r: Result<toml::Table, toml::de::Error>)
    ensures
        r is Ok <==> toml_table_accepts(text@),
{
    toml::from_str::<toml::Table>(text)
}

/// Parses the text of a declaration into a table of TOML values; text that
/// is not a well-formed document fails with `InputMalformed`.
pub fn parse_document(text: &str) -> (r: Result<toml::Table, Failure>)
    ensures
        r is Ok <==> toml_table_accepts(text@),
        r is Err ==> r == Err::<toml::Table, Failure>(Failure::InputMalformed),
{
    match parse_toml_table(text) {
        Ok(t) => Ok(t),
        Err(_) => Err(Failure::InputMalformed),
    }
}

} // verus!
