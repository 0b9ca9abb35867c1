//! The package index: where a package's metadata lives, and reading its newest
//! version out of the JSON answer.
use vstd::prelude::*;

use crate::manifest::UpdateError;

verus! {

/// The part of the index's JSON answer that is read.
#[derive(Debug, Clone, PartialEq, Eq)]
pub struct PypiResp {
    pub info: Info,
}

/// The `info` object of the index's answer.
#[derive(Debug, Clone, PartialEq, Eq)]
pub struct Info {
    /// The newest version of the package.
    pub version: String,
}

/// Whether the bytes are one JSON document, as `serde_json::from_slice` decides.
pub uninterp spec fn json_valid(bytes: Seq<u8>) -> bool;

/// The document that `serde_json::from_slice` reads from valid bytes.
pub uninterp spec fn json_doc(bytes: Seq<u8>) -> serde_json::Value;

/// The member under a key, as `serde_json::Value::get` finds it (`None` for a non-object).
pub uninterp spec fn json_field(v: serde_json::Value, key: Seq<char>) -> Option<serde_json::Value>;

/// The text of a string value, as `serde_json::Value::as_str` gives it.
pub uninterp spec fn json_string(v: serde_json::Value) -> Option<Seq<char>>;

/// Relies on `serde_json::from_slice` to parse JSON text into a value.
#[verifier::external_body]
fn json_parse(bytes: &[u8]) -> (r: Result<serde_json::Value, serde_json::Error>)
    ensures
        r is Ok <==> json_valid(bytes@),
        r is Ok ==> r->Ok_0 == json_doc(bytes@),
{
    serde_json::from_slice::<serde_json::Value>(bytes)
}

/// Relies on `serde_json::Value::get` for the member under a key of an object.
#[verifier::external_body]
fn json_member<'a>(v: &'a serde_json::Value, key: &str) -> (r: Option<&'a serde_json::Value>)
    ensures
        match r {
            Some(m) => json_field(*v, key@) == Some(*m),
            None => json_field(*v, key@) is None,
        },
{
    v.get(key)
}

/// Relies on `serde_json::Value::as_str` for the text of a string value.
#[verifier::external_body]
fn json_text<'a>(v: &'a serde_json::Value) -> (r: Option<&'a str>)
    ensures
        match r {
            Some(s) => json_string(*v) == Some(s@),
            None => json_string(*v) is None,
        },
{
    v.as_str()
}

/// The string at `info.version` of a JSON document, if there is one.
pub open spec fn info_version(doc: serde_json::Value) -> Option<Seq<char>> {
    match json_field(doc, "info"@) {
        None => None,
        Some(info) => match json_field(info, "version"@) {
            None => None,
            Some(v) => json_string(v),
        },
    }
}

impl PypiResp {
    /// Reads the index's JSON answer: it must parse, and hold `info.version` as a
    /// string, which becomes the version; every other field is ignored.
    pub fn from_json(bytes: &[u8]) -> (r: Result<PypiResp, UpdateError>)
        ensures
            !json_valid(bytes@) <==> (r is Err && r->Err_0 is ParseJson),
            json_valid(bytes@) ==> match info_version(json_doc(bytes@)) {
                Some(v) => r is Ok && r->Ok_0.info.version@ == v,
                None => r is Err && r->Err_0 is NoVersionField,
            },
    {
        let doc = match json_parse(bytes) {
            Err(e) => return Err(UpdateError::ParseJson(e)),
            Ok(doc) => doc,
        };
        let info = match json_member(&doc, "info") {
            None => return Err(UpdateError::NoVersionField),
            Some(info) => info,
        };
        match json_member(info, "version") {
            None => Err(UpdateError::NoVersionField),
            Some(v) => match json_text(v) {
                None => Err(UpdateError::NoVersionField),
                Some(text) => Ok(PypiResp { info: Info { version: String::from_str(text) } }),
            },
        }
    }
}

/// The index's JSON endpoint for a package.
pub fn registry_url(name: &str) -> (r: String)
    ensures
        r@ == "https://pypi.org/pypi/"@ + name@ + "/json"@,
{
    let mut url = String::from_str("https://pypi.org/pypi/");
    url.append(name);
    url.append("/json");
    url
}

/// What the tool is run with: the manifest to read, and how many lookups may be
/// outstanding at once.
#[derive(Debug, Clone, PartialEq, Eq)]
pub struct Config {
    pub input: String,
    pub requests: usize,
}

impl Config {
    pub fn new(input: String, requests: usize) -> (r: Config)
        ensures
            r.input == input,
            r.requests == requests,
    {
        Config { input, requests }
    }
}

} // verus!
