//! The extension itself: its registry configuration, and the two
//! operations it offers — listing the dependencies declared by files found
//! above a directory, and resolving registry metadata for one package.
//! Fetching over the network and reading files are the caller's; every
//! decision taken on what comes back is verified here.

use vstd::prelude::*;

use crate::errors::ResolutionError;
use crate::jsondoc::doc_release_versions;
use crate::jsondoc::doc_version_entries;
use crate::jsondoc::release_versions;
use crate::locator::DependencyFile;
use crate::locator::file_types;
use crate::locator::identify_dependency_files;
use crate::locator::locate_spec;
use crate::pipfile::Dependency;
use crate::pipfile::LockRead;
use crate::pipfile::get_dependencies;
use crate::pipfile::get_registry_host_name;
use crate::pipfile::lock_read;
use crate::registry::ArchiveScan;
use crate::registry::archive_scan;
use crate::registry::get_archive_url;
use crate::registry::normalize_url;
use crate::registry::render_url_template;
use crate::registry::rendered;
use crate::registry::url_normalized;
use crate::version::get_latest_version;
use crate::version::latest_of;

verus! {

/// The extension's configuration: its name, the registries it serves, and
/// the URL templates it renders. One registry is configured today; the
/// resolver treats the list as a list all the same.
#[derive(Debug, Clone)]
pub struct PyExtension {
    pub name_: String,
    pub registry_host_names_: Vec<String>,
    pub root_url_: String,
    pub package_url_template_: String,
    pub registry_human_url_template_: String,
}

impl PyExtension {
    /// A usable configuration names at least one registry host.
    pub open spec fn wf(&self) -> bool {
        self.registry_host_names_@.len() >= 1
    }

    /// The fixed configuration of this extension.
    pub fn new() -> (r: PyExtension)
        ensures
            r.name_@ == "py"@,
            r.registry_host_names_@.len() == 1,
            r.registry_host_names_@[0]@ == "pypi.org"@,
            r.root_url_@ == "https://pypi.org/pypi"@,
            r.package_url_template_@ == "https://pypi.org/pypi/{{package_name}}/"@,
            r.registry_human_url_template_@
                == "https://pypi.org/pypi/{{package_name}}/{{package_version}}/"@,
            r.wf(),
    {
        let mut hosts: Vec<String> = Vec::new();
        hosts.push("pypi.org".to_owned());
        PyExtension {
            name_: "py".to_owned(),
            registry_host_names_: hosts,
            root_url_: "https://pypi.org/pypi".to_owned(),
            package_url_template_: "https://pypi.org/pypi/{{package_name}}/".to_owned(),
            registry_human_url_template_:
                "https://pypi.org/pypi/{{package_name}}/{{package_version}}/".to_owned(),
        }
    }

    /// The extension's name.
    pub fn name(&self) -> (r: String)
        ensures
            r@ == self.name_@,
    {
        self.name_.clone()
    }

    /// The registry host names the extension serves.
    pub fn registries(&self) -> (r: Vec<String>)
        ensures
            r@ == self.registry_host_names_@,
    {
        clone_string_vec(&self.registry_host_names_)
    }
}

/// Clones a vector of strings, keeping every element's text.
fn clone_string_vec(v: &Vec<String>) -> (r: Vec<String>)
    ensures
        r@ == v@,
{
    let mut r: Vec<String> = Vec::new();
    let mut i: usize = 0;
    while i < v.len()
        invariant
            i <= v@.len(),
            r@.len() == i,
            forall|j: int| 0 <= j < i ==> r@[j] == v@[j],
        decreases v@.len() - i,
    {
        r.push(v[i].clone());
        i = i + 1;
    }
    proof {
        assert(r@ =~= v@);
    }
    r
}

/// Registry metadata for one resolved package version.
#[derive(Debug, Clone)]
pub struct RegistryPackageMetadata {
    pub registry_host_name: String,
    pub human_url: String,
    pub artifact_url: String,
    pub is_primary: bool,
    pub package_version: String,
}

/// The dependencies declared by one located dependency file.
#[derive(Debug, Clone)]
pub struct FileDefinedDependencies {
    pub path: Vec<String>,
    pub registry_host_name: String,
    pub dependencies: Vec<Dependency>,
}

/// Builds the canonical human-facing page URL for one package version by
/// rendering the configured template; a rendered text that is not a valid
/// URL fails, carrying that text.
pub fn get_registry_human_url(extension: &PyExtension, package_name: &str, package_version: &str)
    -> (r: Result<String, ResolutionError>)
    ensures
        match rendered(
            extension.registry_human_url_template_@,
            package_name@,
            package_version@,
        ) {
            None => r matches Err(e) && (e matches ResolutionError::UrlConstructionError { text }
                && text@ == extension.registry_human_url_template_@),
            Some(rs) => match url_normalized(rs) {
                None => r matches Err(e) && (e
                    matches ResolutionError::UrlConstructionError { text } && text@ == rs),
                Some(u) => r matches Ok(s) && s@ == u,
            },
        },
{
    let rendered_text = match render_url_template(
        extension.registry_human_url_template_.as_str(),
        package_name,
        package_version,
    ) {
        Some(t) => t,
        None => {
            return Err(
                ResolutionError::UrlConstructionError {
                    text: extension.registry_human_url_template_.clone(),
                },
            );
        },
    };
    match normalize_url(rendered_text.as_str()) {
        Some(u) => Ok(u),
        None => Err(ResolutionError::UrlConstructionError { text: rendered_text }),
    }
}

/// The version a resolution works with: the caller's, taken verbatim, or
/// else whatever "latest" selection picks from the document's published
/// versions.
pub open spec fn spec_version_choice(explicit: Option<Seq<char>>, doc: serde_json::Value) -> Option<
    Seq<char>,
> {
    match explicit {
        Some(v) => Some(v),
        None => match doc_release_versions(doc) {
            Some(vs) => latest_of(vs),
            None => None,
        },
    }
}

/// Everything resolution promises, for one configuration, package, caller
/// version and fetched document: which version is worked with, which error
/// comes on which input, and — on success — the single metadata record and
/// each of its fields.
pub open spec fn resolution_ensures(
    ext: PyExtension,
    package_name: Seq<char>,
    explicit: Option<Seq<char>>,
    doc: serde_json::Value,
    r: Result<Vec<RegistryPackageMetadata>, ResolutionError>,
) -> bool {
    match spec_version_choice(explicit, doc) {
        None => if explicit is None && doc_release_versions(doc) is None {
            r matches Err(e) && (e matches ResolutionError::MalformedResponse { body } && body@
                == package_name)
        } else {
            r == Err::<Vec<RegistryPackageMetadata>, ResolutionError>(
                ResolutionError::VersionNotFound,
            )
        },
        Some(v) => match doc_version_entries(doc, v) {
            None => r == Err::<Vec<RegistryPackageMetadata>, ResolutionError>(
                ResolutionError::ArtifactNotFound,
            ),
            Some(entries) => match archive_scan(entries) {
                ArchiveScan::NoSource => r == Err::<Vec<RegistryPackageMetadata>, ResolutionError>(
                    ResolutionError::ArtifactNotFound,
                ),
                ArchiveScan::MissingTag => r matches Err(e) && (e
                    matches ResolutionError::MalformedResponse { body } && body@ == v),
                ArchiveScan::SourceNoUrl => r matches Err(e) && (e
                    matches ResolutionError::MalformedResponse { body } && body@ == v),
                ArchiveScan::SourceUrl(u) => match url_normalized(u) {
                    None => r matches Err(e) && (e matches ResolutionError::MalformedResponse {
                        body,
                    } && body@ == u),
                    Some(au) => match rendered(
                        ext.registry_human_url_template_@,
                        package_name,
                        v,
                    ) {
                        None => r matches Err(e) && (e
                            matches ResolutionError::UrlConstructionError { text } && text@
                            == ext.registry_human_url_template_@),
                        Some(rs) => match url_normalized(rs) {
                            None => r matches Err(e) && (e
                                matches ResolutionError::UrlConstructionError { text } && text@
                                == rs),
                            Some(hu) => r matches Ok(list) && list@.len() == 1
                                && list@[0].registry_host_name@ == ext.registry_host_names_@[0]@
                                && list@[0].human_url@ == hu && list@[0].artifact_url@ == au
                                && list@[0].is_primary == true && list@[0].package_version@ == v,
                        },
                    },
                },
            },
        },
    }
}

impl PyExtension {
    /// Resolves registry metadata for one package from the registry's
    /// fetched metadata document: takes the caller's version verbatim or
    /// picks the latest published one, extracts the source-distribution
    /// archive URL, builds the human page URL, and assembles the one
    /// record of single-registry operation.
    pub fn registries_package_metadata(
        &self,
        package_name: &str,
        package_version: &Option<&str>,
        doc: &serde_json::Value,
    ) -> (r: Result<Vec<RegistryPackageMetadata>, ResolutionError>)
        requires
            self.wf(),
        ensures
            resolution_ensures(
                *self,
                package_name@,
                match *package_version {
                    Some(v) => Some(v@),
                    None => None,
                },
                *doc,
                r,
            ),
    {
        let version: String = match package_version {
            Some(v) => (*v).to_owned(),
            None => {
                match release_versions(doc) {
                    None => {
                        return Err(
                            ResolutionError::MalformedResponse { body: package_name.to_owned() },
                        );
                    },
                    Some(vs) => {
                        match get_latest_version(&vs) {
                            None => {
                                return Err(ResolutionError::VersionNotFound);
                            },
                            Some(s) => s,
                        }
                    },
                }
            },
        };
        // Currently only one registry is configured; the record names the first.
        let registry_host_name = self.registry_host_names_[0].clone();
        let artifact_url = match get_archive_url(doc, version.as_str()) {
            Ok(u) => u,
            Err(e) => {
                return Err(e);
            },
        };
        let human_url = match get_registry_human_url(self, package_name, version.as_str()) {
            Ok(u) => u,
            Err(e) => {
                return Err(e);
            },
        };
        let mut out: Vec<RegistryPackageMetadata> = Vec::new();
        out.push(
            RegistryPackageMetadata {
                registry_host_name,
                human_url,
                artifact_url,
                is_primary: true,
                package_version: version,
            },
        );
        Ok(out)
    }
}

/// The first document, in located-file order, whose dependency table does
/// not read cleanly.
pub open spec fn first_bad_doc(docs: Seq<serde_json::Value>, i: int) -> Option<int>
    decreases docs.len() - i,
{
    if i < 0 || i >= docs.len() {
        None
    } else {
        match lock_read(docs[i]) {
            LockRead::Deps(_) => first_bad_doc(docs, i + 1),
            LockRead::NoTable => Some(i),
            LockRead::MissingVersion(_) => Some(i),
        }
    }
}

impl PyExtension {
    /// Lists the dependencies declared by the dependency files found above
    /// a directory: locates the nearest level with recognized files, and
    /// reads each file's decoded document — handed over in located-file
    /// order — into one per-file record. No located file at all is an
    /// absent result, not a failure; the first document that does not read
    /// cleanly fails the whole listing.
    pub fn identify_file_defined_dependencies(
        &self,
        working_directory: &Vec<String>,
        present: &Vec<Vec<bool>>,
        docs: &Vec<serde_json::Value>,
    ) -> (r: Result<Vec<FileDefinedDependencies>, ResolutionError>)
        requires
            present@.len() == working_directory@.len() + 1,
            forall|i: int|
                0 <= i < present@.len() ==> (#[trigger] present@[i])@.len()
                    == file_types().len(),
            match locate_spec(working_directory.deep_view(), present.deep_view()) {
                Some(files) => docs@.len() == files.len(),
                None => true,
            },
        ensures
            match locate_spec(working_directory.deep_view(), present.deep_view()) {
                None => r matches Ok(out) && out@.len() == 0,
                Some(files) => match first_bad_doc(docs@, 0) {
                    Some(b) => match lock_read(docs@[b]) {
                        LockRead::NoTable => r matches Err(e) && (e
                            matches ResolutionError::MalformedInput { detail } && detail@
                            == "default"@),
                        LockRead::MissingVersion(n) => r matches Err(e) && (e
                            matches ResolutionError::MalformedInput { detail } && detail@ == n),
                        LockRead::Deps(_) => false,
                    },
                    None => r matches Ok(out) && out@.len() == files.len() && (forall|i: int|
                        0 <= i < files.len() ==> {
                            &&& (#[trigger] out@[i]).path.deep_view() == files[i].1
                            &&& out@[i].registry_host_name@ == "pypi.org"@
                            &&& match lock_read(docs@[i]) {
                                LockRead::Deps(ds) => out@[i].dependencies@.map_values(
                                    |d: Dependency| d@,
                                ) == ds,
                                LockRead::NoTable => false,
                                LockRead::MissingVersion(_) => false,
                            }
                        }),
                },
            },
    {
        let ghost wdv = working_directory.deep_view();
        let ghost pdv = present.deep_view();
        let located = identify_dependency_files(working_directory, present);
        let files: Vec<DependencyFile> = match located {
            None => {
                return Ok(Vec::new());
            },
            Some(fs) => fs,
        };
        let ghost files_spec = files@.map_values(|f: DependencyFile| f@);
        let mut out: Vec<FileDefinedDependencies> = Vec::new();
        let mut i: usize = 0;
        while i < files.len()
            invariant
                i <= files@.len(),
                docs@.len() == files@.len(),
                files_spec == files@.map_values(|f: DependencyFile| f@),
                locate_spec(wdv, pdv) == Some(files_spec),
                wdv == working_directory.deep_view(),
                pdv == present.deep_view(),
                first_bad_doc(docs@, 0) == first_bad_doc(docs@, i as int),
                out@.len() == i,
                forall|j: int|
                    0 <= j < i ==> {
                        &&& (#[trigger] out@[j]).path.deep_view() == files_spec[j].1
                        &&& out@[j].registry_host_name@ == "pypi.org"@
                        &&& match lock_read(docs@[j]) {
                            LockRead::Deps(ds) => out@[j].dependencies@.map_values(
                                |d: Dependency| d@,
                            ) == ds,
                            LockRead::NoTable => false,
                            LockRead::MissingVersion(_) => false,
                        }
                    },
            decreases files@.len() - i,
        {
            let doc = &docs[i];
            match get_dependencies(doc) {
                Err(e) => {
                    proof {
                        assert(first_bad_doc(docs@, i as int) == Some(i as int));
                    }
                    return Err(e);
                },
                Ok(deps) => {
                    let path = clone_string_vec(&files[i].path);
                    proof {
                        assert(path.deep_view() =~= files[i as int].path.deep_view());
                        assert(files_spec[i as int] == files@[i as int]@);
                    }
                    out.push(
                        FileDefinedDependencies {
                            path,
                            registry_host_name: get_registry_host_name(),
                            dependencies: deps,
                        },
                    );
                },
            }
            i = i + 1;
        }
        Ok(out)
    }
}

} // verus!
