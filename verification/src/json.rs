//! Trusted wrappers for reading the JSON documents a certificate authority
//! returns: the directory, order and authorization objects and problem
//! documents.  Parsing is done by serde_json; what each accessor returns is
//! a function of the body alone, so it is given a name that the verified
//! parsers' contracts speak of exactly.

use vstd::prelude::*;

verus! {

pub uninterp spec fn spec_json_str_field(body: Seq<u8>, key: Seq<char>) -> Option<Seq<char>>;

pub uninterp spec fn spec_json_str_list_field(body: Seq<u8>, key: Seq<char>) -> Option<
    Seq<Seq<char>>,
>;

pub uninterp spec fn spec_json_challenges(body: Seq<u8>) -> Option<
    Seq<(Seq<char>, Seq<char>, Seq<char>)>,
>;

pub uninterp spec fn spec_json_identifier_value(body: Seq<u8>) -> Option<Seq<char>>;

/// Relies on serde_json::from_slice and Value::get/as_str: the top-level
/// string field named `key` of the JSON object in `body`, if the body
/// parses as an object holding such a field.
#[verifier::external_body]
pub(crate) fn json_str_field(body: &[u8], key: &str) -> (r: Option<String>)
    ensures
        match r {
            Some(s) => spec_json_str_field(body@, key@) == Some(s@),
            None => spec_json_str_field(body@, key@) is None,
        },
{
    match serde_json::from_slice::<serde_json::Value>(body) {
        Ok(v) => v.get(key).and_then(|f| f.as_str()).map(|s| s.to_string()),
        Err(_) => None,
    }
}

/// Relies on serde_json::from_slice and Value::get/as_array/as_str: the
/// top-level field named `key` read as an array of strings, if the body
/// parses as an object holding such an array.
#[verifier::external_body]
pub(crate) fn json_str_list_field(body: &[u8], key: &str) -> (r: Option<Vec<String>>)
    ensures
        match r {
            Some(v) => spec_json_str_list_field(body@, key@) == Some(v.deep_view()),
            None => spec_json_str_list_field(body@, key@) is None,
        },
{
    match serde_json::from_slice::<serde_json::Value>(body) {
        Ok(v) => match v.get(key).and_then(|f| f.as_array()) {
            Some(items) => items.iter().map(
                |it| it.as_str().map(|s| s.to_string()),
            ).collect(),
            None => None,
        },
        Err(_) => None,
    }
}

/// Relies on serde_json::from_slice and Value::get/as_array/as_str: the
/// `challenges` array of an authorization object, each entry read as its
/// (type, url, token) string fields.
#[verifier::external_body]
pub(crate) fn json_challenges(body: &[u8]) -> (r: Option<Vec<(String, String, String)>>)
    ensures
        match r {
            Some(v) => spec_json_challenges(body@) == Some(v.deep_view()),
            None => spec_json_challenges(body@) is None,
        },
{
    match serde_json::from_slice::<serde_json::Value>(body) {
        Ok(v) => match v.get("challenges").and_then(|f| f.as_array()) {
            Some(items) => items.iter().map(|c| {
                let ty = c.get("type").and_then(|f| f.as_str())?;
                let url = c.get("url").and_then(|f| f.as_str())?;
                let token = c.get("token").and_then(|f| f.as_str())?;
                Some((ty.to_string(), url.to_string(), token.to_string()))
            }).collect(),
            None => None,
        },
        Err(_) => None,
    }
}

/// Relies on serde_json::from_slice and Value::get/as_str: the `value`
/// string inside the top-level `identifier` object of an authorization,
/// naming the hostname the authorization is for.
#[verifier::external_body]
pub(crate) fn json_identifier_value(body: &[u8]) -> (r: Option<String>)
    ensures
        match r {
            Some(s) => spec_json_identifier_value(body@) == Some(s@),
            None => spec_json_identifier_value(body@) is None,
        },
{
    match serde_json::from_slice::<serde_json::Value>(body) {
        Ok(v) => v.get("identifier").and_then(|i| i.get("value")).and_then(
            |f| f.as_str(),
        ).map(|s| s.to_string()),
        Err(_) => None,
    }
}

} // verus!
