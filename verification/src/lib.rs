//! Resolves, for the Python package ecosystem, which published artifact a
//! named dependency maps to: locates dependency-declaration files by
//! walking up the directory tree, parses a pinned-version lockfile into
//! declared dependencies, and extracts from registry metadata the
//! authoritative version, its human-facing page and its source-archive
//! URL. Reading files and fetching over the network are the embedding
//! program's work; every decision taken on what they hand over is verified
//! here.

pub mod errors;
pub mod extension;
pub mod jsondoc;
pub mod locator;
pub mod pipfile;
pub mod registry;
pub mod version;
