//! The crate's only boundary with serde_json: validity checking and
//! pretty-printing of settings texts. Each result is named as a function
//! of the input text alone.

use vstd::prelude::*;

verus! {

/// serde_json's verdict on a text: `None` where the text parses as JSON,
/// the parse error's rendering otherwise. A function of the text alone.
pub uninterp spec fn json_parse_err(s: Seq<char>) -> Option<Seq<char>>;

/// The text parses as JSON.
pub open spec fn is_valid_json(s: Seq<char>) -> bool {
    json_parse_err(s) is None
}

/// The pretty-printed form of a valid JSON text: the result of parsing it
/// and pretty-printing the value, a function of the text alone.
pub uninterp spec fn json_pretty(s: Seq<char>) -> Seq<char>;

/// Relies on serde_json::from_str::<serde_json::Value> and
/// serde_json::to_string_pretty: re-formats a JSON text, or hands back
/// the parse error's rendering.
#[verifier::external_body]
pub(crate) fn reformat_json(s: &str) -> (r: Result<String, String>)
    ensures
        r is Ok <==> is_valid_json(s@),
        r matches Ok(p) ==> p@ == json_pretty(s@),
        r matches Err(m) ==> json_parse_err(s@) == Some(m@),
{
    match serde_json::from_str::<serde_json::Value>(s) {
        Ok(v) => Ok(serde_json::to_string_pretty(&v).unwrap_or_default()),
        Err(e) => Err(e.to_string()),
    }
}

/// The pretty-printed JSON object whose members are the given key/value
/// string pairs: the result of building a serde_json object from them and
/// pretty-printing it, a function of the pairs alone.
pub uninterp spec fn json_pretty_object(pairs: Seq<(Seq<char>, Seq<char>)>) -> Seq<char>;

/// Relies on serde_json::Map, serde_json::Value and
/// serde_json::to_string_pretty: builds an object with the given string
/// members and pretty-prints it.
#[verifier::external_body]
pub(crate) fn pretty_object(pairs: &Vec<(String, String)>) -> (r: String)
    ensures
        r@ == json_pretty_object(pairs@.map_values(|p: (String, String)| (p.0@, p.1@))),
{
    let m: serde_json::Map<String, serde_json::Value> = pairs.iter().map(
        |p| (p.0.clone(), serde_json::Value::String(p.1.clone())),
    ).collect();
    serde_json::to_string_pretty(&serde_json::Value::Object(m)).unwrap_or_default()
}

} // verus!
