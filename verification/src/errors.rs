//! The failure kinds resolution and parsing can surface. Each failure
//! carries the offending input, so a caller can diagnose without
//! re-querying; "no dependency file found" is not an error and is an absent
//! result instead, never a kind here.

use vstd::prelude::*;

verus! {

/// One failure kind.
#[derive(Debug, Clone)]
pub enum ResolutionError {
    /// A lockfile was present but could not be decoded, or an entry lacked
    /// a required field; carries the undecodable text, the name of the
    /// missing table, or the name of the entry without a version.
    MalformedInput { detail: String },
    /// "Latest" resolution found no eligible published version.
    VersionNotFound,
    /// The registry could not be reached, or replied with failure; carries
    /// the transport's description of the fault.
    RegistryUnavailable { detail: String },
    /// The registry replied, but the body was not valid JSON or lacked an
    /// expected field; carries the raw body for a body that would not
    /// decode, else the offending input.
    MalformedResponse { body: String },
    /// Template rendering did not produce a syntactically valid URL;
    /// carries the text that was not a URL (or the template that would not
    /// render).
    UrlConstructionError { text: String },
    /// The resolved version has no release entry tagged as a source
    /// distribution.
    ArtifactNotFound,
}

} // verus!
