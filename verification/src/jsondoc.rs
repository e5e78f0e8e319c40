//! The JSON documents the library works on: the registry's metadata reply
//! and the lockfile body. The document value itself is serde_json's and is
//! opaque here; what the logic reads of it — the release version keys, one
//! version's release entries, the lockfile's dependency table — comes out
//! through trusted projections as plain values, and everything done with
//! those values is verified.

use vstd::prelude::*;

verus! {

#[verifier::external_type_specification]
#[verifier::external_body]
pub struct ExJsonValue(serde_json::Value);

/// Whether a text is well-formed JSON, as serde_json reads it.
pub uninterp spec fn json_ok(s: Seq<char>) -> bool;

/// The document a well-formed JSON text parses to; serde_json's parse is
/// deterministic, so the document is a function of the text alone.
pub uninterp spec fn json_doc_of(s: Seq<char>) -> serde_json::Value;

/// Relies on serde_json::from_str::<Value>: a document comes back exactly
/// when the text is well-formed JSON, and it is the parse of that text,
/// nothing else.
#[verifier::external_body]
pub(crate) fn json_from_str(s: &str) -> (r: Option<serde_json::Value>)
    ensures
        r is Some <==> json_ok(s@),
        r matches Some(d) ==> d == json_doc_of(s@),
{
    serde_json::from_str(s).ok()
}

/// The version keys of the document's "releases" table, in the order the
/// document's sorted object map hands them out; nothing when the document
/// has no "releases" object.
pub uninterp spec fn doc_release_versions(doc: serde_json::Value) -> Option<Seq<Seq<char>>>;

/// Relies on serde_json's Value indexing and Map::keys: the keys of the
/// "releases" object. serde_json stores an object as a map sorted by key,
/// so the keys and their order are a function of the document value alone.
#[verifier::external_body]
pub(crate) fn release_versions(doc: &serde_json::Value) -> (r: Option<Vec<String>>)
    ensures
        match r {
            Some(v) => doc_release_versions(*doc) == Some(v.deep_view()),
            None => doc_release_versions(*doc) is None,
        },
{
    doc["releases"].as_object().map(|m| m.keys().cloned().collect())
}

/// One release artifact, reduced to the fields the resolver reads: its
/// platform/distribution tag and its download URL, either possibly absent.
pub struct ReleaseEntry {
    pub python_version: Option<String>,
    pub url: Option<String>,
}

impl View for ReleaseEntry {
    type V = (Option<Seq<char>>, Option<Seq<char>>);

    open spec fn view(&self) -> Self::V {
        (self.python_version.deep_view(), self.url.deep_view())
    }
}

/// The release list the document holds for one version, each entry reduced
/// to its tag and download URL; nothing when the document has no release
/// array for that version.
pub uninterp spec fn doc_version_entries(doc: serde_json::Value, version: Seq<char>) -> Option<
    Seq<(Option<Seq<char>>, Option<Seq<char>>)>,
>;

/// Relies on serde_json's Value indexing: the "releases" array for one
/// version, entries reduced to their "python_version" and "url" string
/// fields, in array order.
#[verifier::external_body]
pub(crate) fn version_entries(doc: &serde_json::Value, version: &str) -> (r: Option<
    Vec<ReleaseEntry>,
>)
    ensures
        match r {
            Some(v) => doc_version_entries(*doc, version@) == Some(
                v@.map_values(|e: ReleaseEntry| e@),
            ),
            None => doc_version_entries(*doc, version@) is None,
        },
{
    doc["releases"][version].as_array().map(|arr| arr.iter().map(|rel| ReleaseEntry {
        python_version: rel["python_version"].as_str().map(|s| s.to_string()),
        url: rel["url"].as_str().map(|s| s.to_string()),
    }).collect())
}

/// The entries of the lockfile document's "default" table: each package
/// name with its optional "version" string, in the sorted map order;
/// nothing when the document has no "default" object.
pub uninterp spec fn doc_default_entries(doc: serde_json::Value) -> Option<
    Seq<(Seq<char>, Option<Seq<char>>)>,
>;

/// Relies on serde_json's Value indexing and Map iteration: the "default"
/// object's entries, each reduced to its key and its "version" string
/// field, in the sorted map order.
#[verifier::external_body]
pub(crate) fn default_entries(doc: &serde_json::Value) -> (r: Option<Vec<(String, Option<String>)>>)
    ensures
        match r {
            Some(v) => doc_default_entries(*doc) == Some(v.deep_view()),
            None => doc_default_entries(*doc) is None,
        },
{
    doc["default"].as_object().map(|m| m.iter().map(|(k, dep)| {
        (k.clone(), dep["version"].as_str().map(|s| s.to_string()))
    }).collect())
}

} // verus!
