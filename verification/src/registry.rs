//! Registry metadata handling: the URL of the registry's metadata document,
//! decoding the registry's reply, and extracting the source-distribution
//! archive URL for a resolved version. Template rendering and URL parsing
//! are the template engine's and URL crate's work, named and called through
//! trusted wrappers; everything decided from their results is verified.

use vstd::prelude::*;

use crate::errors::ResolutionError;
use crate::jsondoc::ReleaseEntry;
use crate::jsondoc::doc_version_entries;
use crate::jsondoc::json_doc_of;
use crate::jsondoc::json_from_str;
use crate::jsondoc::json_ok;
use crate::jsondoc::version_entries;

verus! {

/// What rendering a URL template over a package name and version yields,
/// when the template renders at all; a function of the three texts alone.
pub uninterp spec fn rendered(
    template: Seq<char>,
    package_name: Seq<char>,
    package_version: Seq<char>,
) -> Option<Seq<char>>;

/// Relies on handlebars::Handlebars::render_template of a fresh default
/// registry: the output depends on the template text and the two data
/// values alone, and rendering fails only on a template that does not
/// parse.
#[verifier::external_body]
pub(crate) fn render_url_template(template: &str, package_name: &str, package_version: &str) -> (r:
    Option<String>)
    ensures
        match r {
            Some(s) => rendered(template@, package_name@, package_version@) == Some(s@),
            None => rendered(template@, package_name@, package_version@) is None,
        },
{
    let registry = handlebars::Handlebars::new();
    let mut data = std::collections::BTreeMap::new();
    data.insert("package_name", package_name);
    data.insert("package_version", package_version);
    registry.render_template(template, &data).ok()
}

/// What parsing a text as a URL yields: the parsed URL's serialization, or
/// nothing when the text is not a syntactically valid URL.
pub uninterp spec fn url_normalized(s: Seq<char>) -> Option<Seq<char>>;

/// Relies on url::Url::parse: succeeds exactly on syntactically valid URLs
/// and hands back the parsed URL's serialization.
#[verifier::external_body]
pub(crate) fn normalize_url(s: &str) -> (r: Option<String>)
    ensures
        match r {
            Some(u) => url_normalized(s@) == Some(u@),
            None => url_normalized(s@) is None,
        },
{
    url::Url::parse(s).ok().map(|u| u.to_string())
}

/// The template of the registry's metadata endpoint for one package.
pub open spec fn spec_entry_url_template() -> Seq<char> {
    "https://pypi.org/pypi/{{package_name}}/json"@
}

/// The URL the registry's metadata document for one package is fetched
/// from; the fetch itself is the caller's.
pub fn registry_entry_url(package_name: &str) -> (r: Result<String, ResolutionError>)
    ensures
        match rendered(spec_entry_url_template(), package_name@, ""@) {
            Some(u) => r matches Ok(s) && s@ == u,
            None => r matches Err(e) && (e matches ResolutionError::UrlConstructionError { text }
                && text@ == spec_entry_url_template()),
        },
{
    match render_url_template("https://pypi.org/pypi/{{package_name}}/json", package_name, "") {
        Some(u) => Ok(u),
        None => Err(
            ResolutionError::UrlConstructionError {
                text: "https://pypi.org/pypi/{{package_name}}/json".to_owned(),
            },
        ),
    }
}

/// Decodes the registry's reply body into exactly the parse of that body;
/// a body that is not well-formed JSON fails as a malformed response that
/// carries the raw body.
pub fn parse_registry_response(body: String) -> (r: Result<serde_json::Value, ResolutionError>)
    ensures
        json_ok(body@) ==> (r matches Ok(d) && d == json_doc_of(body@)),
        !json_ok(body@) ==> (r matches Err(e) && (e matches ResolutionError::MalformedResponse {
            body: b,
        } && b@ == body@)),
{
    match json_from_str(body.as_str()) {
        Some(doc) => Ok(doc),
        None => Err(ResolutionError::MalformedResponse { body }),
    }
}

/// How the scan of one version's release list ends.
pub enum ArchiveScan {
    /// Every entry is tagged, none as a source distribution.
    NoSource,
    /// An entry with no tag comes before any source distribution.
    MissingTag,
    /// The first source distribution has no download URL field.
    SourceNoUrl,
    /// The download URL text of the first source distribution.
    SourceUrl(Seq<char>),
}

/// Scans release entries in list order: the first untagged entry stops the
/// scan; otherwise the first entry tagged "source" decides; a list with
/// tags but no source distribution yields nothing.
pub open spec fn archive_scan(entries: Seq<(Option<Seq<char>>, Option<Seq<char>>)>) -> ArchiveScan
    decreases entries.len(),
{
    if entries.len() == 0 {
        ArchiveScan::NoSource
    } else {
        match entries[0].0 {
            None => ArchiveScan::MissingTag,
            Some(tag) => if tag == "source"@ {
                match entries[0].1 {
                    None => ArchiveScan::SourceNoUrl,
                    Some(u) => ArchiveScan::SourceUrl(u),
                }
            } else {
                archive_scan(entries.drop_first())
            },
        }
    }
}

/// Artifact extraction ignores list order: in a release list where every
/// entry carries a tag and exactly one is tagged as a source distribution,
/// the scan returns that entry's download URL wherever in the list the
/// entry stands.
pub proof fn lemma_archive_scan_order_independent(
    entries: Seq<(Option<Seq<char>>, Option<Seq<char>>)>,
    i: int,
)
    requires
        0 <= i < entries.len(),
        forall|j: int| 0 <= j < entries.len() ==> (#[trigger] entries[j]).0 is Some,
        entries[i].0 == Some("source"@),
        entries[i].1 is Some,
        forall|j: int|
            0 <= j < entries.len() && j != i ==> (#[trigger] entries[j]).0 != Some("source"@),
    ensures
        archive_scan(entries) == ArchiveScan::SourceUrl(entries[i].1->0),
    decreases entries.len(),
{
    if i == 0 {
    } else {
        assert(entries[0].0 is Some && entries[0].0 != Some("source"@));
        let tail = entries.drop_first();
        assert(forall|j: int| 0 <= j < tail.len() ==> #[trigger] tail[j] == entries[j + 1]);
        lemma_archive_scan_order_independent(tail, i - 1);
    }
}

/// Extracts the source-distribution archive URL for one resolved version
/// from the registry's metadata document: the single release entry tagged
/// as a source distribution decides, wherever it stands in the list.
pub fn get_archive_url(doc: &serde_json::Value, package_version: &str) -> (r: Result<
    String,
    ResolutionError,
>)
    ensures
        match doc_version_entries(*doc, package_version@) {
            None => r == Err::<String, ResolutionError>(ResolutionError::ArtifactNotFound),
            Some(entries) => match archive_scan(entries) {
                ArchiveScan::NoSource => r == Err::<String, ResolutionError>(
                    ResolutionError::ArtifactNotFound,
                ),
                ArchiveScan::MissingTag => r matches Err(e) && (e
                    matches ResolutionError::MalformedResponse { body } && body@
                    == package_version@),
                ArchiveScan::SourceNoUrl => r matches Err(e) && (e
                    matches ResolutionError::MalformedResponse { body } && body@
                    == package_version@),
                ArchiveScan::SourceUrl(u) => match url_normalized(u) {
                    Some(nu) => r matches Ok(s) && s@ == nu,
                    None => r matches Err(e) && (e matches ResolutionError::MalformedResponse {
                        body,
                    } && body@ == u),
                },
            },
        },
{
    let entries: Vec<ReleaseEntry> = match version_entries(doc, package_version) {
        Some(v) => v,
        None => {
            return Err(ResolutionError::ArtifactNotFound);
        },
    };
    let ghost ev = entries@.map_values(|e: ReleaseEntry| e@);
    let source_tag: String = "source".to_owned();
    let mut i: usize = 0;
    proof {
        assert(ev.skip(0) =~= ev);
    }
    while i < entries.len()
        invariant
            i <= entries.len(),
            ev == entries@.map_values(|e: ReleaseEntry| e@),
            ev.len() == entries@.len(),
            source_tag@ == "source"@,
            doc_version_entries(*doc, package_version@) == Some(ev),
            archive_scan(ev) == archive_scan(ev.skip(i as int)),
        decreases entries.len() - i,
    {
        proof {
            assert(ev.skip(i as int)[0] == ev[i as int]);
            assert(ev.skip(i as int).drop_first() =~= ev.skip(i + 1));
        }
        let entry = &entries[i];
        match &entry.python_version {
            None => {
                return Err(
                    ResolutionError::MalformedResponse { body: package_version.to_owned() },
                );
            },
            Some(tag) => {
                if tag.eq(&source_tag) {
                    match &entry.url {
                        None => {
                            return Err(
                                ResolutionError::MalformedResponse {
                                    body: package_version.to_owned(),
                                },
                            );
                        },
                        Some(u) => {
                            match normalize_url(u.as_str()) {
                                Some(nu) => {
                                    return Ok(nu);
                                },
                                None => {
                                    return Err(
                                        ResolutionError::MalformedResponse { body: u.clone() },
                                    );
                                },
                            }
                        },
                    }
                }
            },
        }
        i = i + 1;
    }
    proof {
        assert(ev.skip(entries@.len() as int) =~= Seq::<
            (Option<Seq<char>>, Option<Seq<char>>),
        >::empty());
    }
    Err(ResolutionError::ArtifactNotFound)
}

} // verus!
