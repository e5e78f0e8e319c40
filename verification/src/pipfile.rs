//! Pipfile.lock parsing: turns the lockfile's JSON document into the set of
//! declared dependencies. The lockfile pins exact versions, written with a
//! leading exact-version operator; parsing normalizes that away. Every
//! dependency of this lockfile kind targets one fixed registry.

use vstd::prelude::*;

use crate::errors::ResolutionError;
use crate::jsondoc::default_entries;
use crate::jsondoc::doc_default_entries;
use crate::jsondoc::json_doc_of;
use crate::jsondoc::json_from_str;
use crate::jsondoc::json_ok;

verus! {

/// One declared dependency: package name and pinned version.
#[derive(Debug, Clone)]
pub struct Dependency {
    pub name: String,
    pub version: String,
}

impl View for Dependency {
    type V = (Seq<char>, Seq<char>);

    open spec fn view(&self) -> Self::V {
        (self.name@, self.version@)
    }
}

/// The registry this lockfile kind's dependencies are declared against.
pub fn get_registry_host_name() -> (r: String)
    ensures
        r@ == "pypi.org"@,
{
    "pypi.org".to_owned()
}

/// A pinned version as the lockfile writes it, with the leading
/// exact-version operator removed: "==1.2.3" reads as "1.2.3".
pub open spec fn normalized_version(v: Seq<char>) -> Seq<char> {
    if v.len() >= 2 && v[0] == '=' && v[1] == '=' {
        v.skip(2)
    } else {
        v
    }
}

/// Strips the exact-version operator off a pinned version string.
pub fn normalize_version(v: &str) -> (r: String)
    ensures
        r@ == normalized_version(v@),
{
    let len = v.unicode_len();
    if len >= 2 && v.get_char(0) == '=' && v.get_char(1) == '=' {
        let rest = v.substring_char(2, len);
        proof {
            assert(v@.subrange(2, len as int) =~= v@.skip(2));
        }
        rest.to_owned()
    } else {
        v.to_owned()
    }
}

/// How reading the lockfile document's dependency table ends.
pub enum LockRead {
    /// The document has no "default" table.
    NoTable,
    /// The name of the first entry that lacks its required version.
    MissingVersion(Seq<char>),
    /// Every entry's name and normalized version, in table order.
    Deps(Seq<(Seq<char>, Seq<char>)>),
}

/// Folds the table entries in order: the first entry without a version
/// fails the whole read; otherwise every entry is kept, normalized.
pub open spec fn dep_scan(entries: Seq<(Seq<char>, Option<Seq<char>>)>) -> LockRead
    decreases entries.len(),
{
    if entries.len() == 0 {
        LockRead::Deps(Seq::empty())
    } else {
        match entries[0].1 {
            None => LockRead::MissingVersion(entries[0].0),
            Some(v) => match dep_scan(entries.drop_first()) {
                LockRead::MissingVersion(n) => LockRead::MissingVersion(n),
                LockRead::Deps(rest) => LockRead::Deps(
                    seq![(entries[0].0, normalized_version(v))] + rest,
                ),
                LockRead::NoTable => LockRead::NoTable,
            },
        }
    }
}

/// What the whole lockfile document declares.
pub open spec fn lock_read(doc: serde_json::Value) -> LockRead {
    match doc_default_entries(doc) {
        None => LockRead::NoTable,
        Some(entries) => dep_scan(entries),
    }
}

/// Decodes a lockfile body into exactly the parse of that body; a body
/// that is not well-formed JSON is malformed input, reported with the
/// undecodable text itself.
pub fn parse_lockfile(content: &str) -> (r: Result<serde_json::Value, ResolutionError>)
    ensures
        json_ok(content@) ==> (r matches Ok(d) && d == json_doc_of(content@)),
        !json_ok(content@) ==> (r matches Err(e) && (e matches ResolutionError::MalformedInput {
            detail,
        } && detail@ == content@)),
{
    match json_from_str(content) {
        Some(doc) => Ok(doc),
        None => Err(ResolutionError::MalformedInput { detail: content.to_owned() }),
    }
}

/// Reads the declared dependencies out of a decoded lockfile document: the
/// entries of its dependency table, each with its pinned version
/// normalized; an absent table or an entry without a version is malformed
/// input, reported with the table's name or the entry's name.
pub fn get_dependencies(doc: &serde_json::Value) -> (r: Result<Vec<Dependency>, ResolutionError>)
    ensures
        match lock_read(*doc) {
            LockRead::NoTable => r matches Err(e) && (e matches ResolutionError::MalformedInput {
                detail,
            } && detail@ == "default"@),
            LockRead::MissingVersion(n) => r matches Err(e) && (e
                matches ResolutionError::MalformedInput { detail } && detail@ == n),
            LockRead::Deps(ds) => r matches Ok(v) && v@.map_values(|d: Dependency| d@) == ds,
        },
{
    let entries: Vec<(String, Option<String>)> = match default_entries(doc) {
        Some(v) => v,
        None => {
            return Err(ResolutionError::MalformedInput { detail: "default".to_owned() });
        },
    };
    let ghost ev = entries.deep_view();
    let mut deps: Vec<Dependency> = Vec::new();
    let mut i: usize = 0;
    proof {
        assert(ev.skip(0) =~= ev);
        assert(deps@.map_values(|d: Dependency| d@) =~= Seq::<(Seq<char>, Seq<char>)>::empty());
    }
    while i < entries.len()
        invariant
            i <= entries.len(),
            ev == entries.deep_view(),
            ev.len() == entries@.len(),
            doc_default_entries(*doc) == Some(ev),
            dep_scan(ev) == (match dep_scan(ev.skip(i as int)) {
                LockRead::MissingVersion(n) => LockRead::MissingVersion(n),
                LockRead::Deps(rest) => LockRead::Deps(
                    deps@.map_values(|d: Dependency| d@) + rest,
                ),
                LockRead::NoTable => LockRead::NoTable,
            }),
        decreases entries.len() - i,
    {
        proof {
            assert(ev.skip(i as int)[0] == ev[i as int]);
            assert(ev.skip(i as int).drop_first() =~= ev.skip(i + 1));
            assert(ev[i as int] == entries@[i as int].deep_view());
        }
        let ghost deps_before = deps@;
        let entry = &entries[i];
        match &entry.1 {
            None => {
                return Err(ResolutionError::MalformedInput { detail: entry.0.clone() });
            },
            Some(pinned) => {
                let dep = Dependency {
                    name: entry.0.clone(),
                    version: normalize_version(pinned.as_str()),
                };
                deps.push(dep);
                proof {
                    assert(deps@.map_values(|d: Dependency| d@) =~= deps_before.map_values(
                        |d: Dependency| d@,
                    ).push((ev[i as int].0, normalized_version(ev[i as int].1->0))));
                    match dep_scan(ev.skip(i + 1)) {
                        LockRead::Deps(rest) => {
                            assert(deps_before.map_values(|d: Dependency| d@) + (seq![
                                (ev[i as int].0, normalized_version(ev[i as int].1->0)),
                            ] + rest) =~= deps@.map_values(|d: Dependency| d@) + rest);
                        },
                        LockRead::MissingVersion(_) => {},
                        LockRead::NoTable => {},
                    }
                }
            },
        }
        i = i + 1;
    }
    proof {
        assert(ev.skip(entries@.len() as int) =~= Seq::<(Seq<char>, Option<Seq<char>>)>::empty());
        assert(deps@.map_values(|d: Dependency| d@) + Seq::<(Seq<char>, Seq<char>)>::empty()
            =~= deps@.map_values(|d: Dependency| d@));
    }
    Ok(deps)
}

} // verus!
