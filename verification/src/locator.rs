//! Dependency file locator: walks the directory tree upward from a starting
//! directory and returns every recognized dependency-declaration file found
//! at the first (nearest) level that has one.
//!
//! Paths are modelled as their component names from the filesystem root: the
//! root itself is the empty sequence, and `/a/b` is `["a", "b"]`. The caller
//! reports, for each level on the way up and for each recognized file name,
//! whether that name exists as a file there: entry `k` of the probe table
//! describes the level `k` steps above the start, so the table has one entry
//! more than the start has components. The walk itself — nearest level wins,
//! stop at the root — is carried out and proved here.

use vstd::prelude::*;

verus! {

/// Recognized package dependency file kinds; a closed enumeration, each kind
/// tied to exactly one expected file name.
#[derive(Debug, Copy, Clone, PartialEq, Eq, Structural)]
pub enum DependencyFileType {
    PipfileLock,
}

/// The file name each dependency file kind is stored under.
pub open spec fn spec_file_name(t: DependencyFileType) -> Seq<char> {
    match t {
        DependencyFileType::PipfileLock => "Pipfile.lock"@,
    }
}

impl DependencyFileType {
    /// Return file name associated with dependency type.
    pub fn file_name(&self) -> (r: String)
        ensures
            r@ == spec_file_name(*self),
    {
        match self {
            DependencyFileType::PipfileLock => "Pipfile.lock".to_owned(),
        }
    }
}

/// All recognized dependency file kinds, in a fixed order.
pub open spec fn file_types() -> Seq<DependencyFileType> {
    seq![DependencyFileType::PipfileLock]
}

/// All recognized dependency file kinds, in a fixed order.
pub fn dependency_file_types() -> (r: Vec<DependencyFileType>)
    ensures
        r@ == file_types(),
{
    let mut v: Vec<DependencyFileType> = Vec::new();
    v.push(DependencyFileType::PipfileLock);
    proof {
        assert(v@ =~= file_types());
    }
    v
}

/// A located dependency file: its kind and its absolute path, as components
/// from the filesystem root, the file name last.
#[derive(Debug, Clone)]
pub struct DependencyFile {
    pub file_type: DependencyFileType,
    pub path: Vec<String>,
}

impl View for DependencyFile {
    type V = (DependencyFileType, Seq<Seq<char>>);

    open spec fn view(&self) -> Self::V {
        (self.file_type, self.path.deep_view())
    }
}

/// Does some recognized file exist at a level, by that level's probes?
pub open spec fn level_matches(probes: Seq<bool>) -> bool {
    exists|t: int| 0 <= t < probes.len() && probes[t]
}

/// The nearest level at or above `i` where a probe holds.
pub open spec fn first_match_from(present: Seq<Seq<bool>>, i: int) -> Option<int>
    decreases present.len() - i,
{
    if i < 0 || i >= present.len() {
        None
    } else if level_matches(present[i]) {
        Some(i)
    } else {
        first_match_from(present, i + 1)
    }
}

/// The directory `level` steps above the start.
pub open spec fn dir_at(wd: Seq<Seq<char>>, level: int) -> Seq<Seq<char>> {
    wd.take(wd.len() - level)
}

/// The dependency files present at one level, from kind index `t` on: each
/// probed kind, in enumeration order, with its absolute path at that level.
pub open spec fn files_at(wd: Seq<Seq<char>>, probes: Seq<bool>, level: int, t: int) -> Seq<
    (DependencyFileType, Seq<Seq<char>>),
>
    decreases file_types().len() - t,
{
    if t < 0 || t >= file_types().len() {
        Seq::empty()
    } else {
        let rest = files_at(wd, probes, level, t + 1);
        if t < probes.len() && probes[t] {
            seq![
                (file_types()[t], dir_at(wd, level).push(spec_file_name(file_types()[t]))),
            ] + rest
        } else {
            rest
        }
    }
}

/// What locating returns: the files of the nearest matching level, or
/// nothing when no level up to and including the root matches.
pub open spec fn locate_spec(wd: Seq<Seq<char>>, present: Seq<Seq<bool>>) -> Option<
    Seq<(DependencyFileType, Seq<Seq<char>>)>,
> {
    match first_match_from(present, 0) {
        Some(k) => Some(files_at(wd, present[k], k, 0)),
        None => None,
    }
}

/// Returns a vector of identified package dependency definition files.
///
/// Walks up the directory tree until the first positive level is found;
/// levels past it are never taken, and levels are never merged.
pub fn identify_dependency_files(working_directory: &Vec<String>, present: &Vec<Vec<bool>>) -> (r:
    Option<Vec<DependencyFile>>)
    requires
        present@.len() == working_directory@.len() + 1,
        forall|i: int| 0 <= i < present@.len() ==> (#[trigger] present@[i])@.len() == file_types().len(),
    ensures
        match r {
            Some(files) => locate_spec(working_directory.deep_view(), present.deep_view())
                == Some(files@.map_values(|f: DependencyFile| f@)),
            None => locate_spec(working_directory.deep_view(), present.deep_view()) is None,
        },
{
    let ghost wdv = working_directory.deep_view();
    let ghost pdv = present.deep_view();
    proof {
        assert(pdv.len() == present@.len());
    }
    let types = dependency_file_types();
    let mut k: usize = 0;
    while k < present.len()
        invariant
            k <= present.len(),
            wdv == working_directory.deep_view(),
            pdv == present.deep_view(),
            pdv.len() == present@.len(),
            present@.len() == working_directory@.len() + 1,
            forall|i: int|
                0 <= i < present@.len() ==> (#[trigger] present@[i])@.len()
                    == file_types().len(),
            types@ == file_types(),
            first_match_from(pdv, 0) == first_match_from(pdv, k as int),
        decreases present.len() - k,
    {
        let probes = &present[k];
        proof {
            assert(pdv[k as int] =~= probes@);
        }
        let mut any = false;
        let mut t: usize = 0;
        while t < probes.len()
            invariant
                t <= probes.len(),
                any == exists|j: int| 0 <= j < t && probes@[j],
            decreases probes.len() - t,
        {
            if probes[t] {
                any = true;
            }
            t = t + 1;
        }
        if any {
            proof {
                assert(level_matches(pdv[k as int]));
                assert(first_match_from(pdv, 0) == Some(k as int));
            }
            let depth = working_directory.len() - k;
            let mut files: Vec<DependencyFile> = Vec::new();
            let mut ti: usize = 0;
            proof {
                assert(files@.map_values(|f: DependencyFile| f@) + files_at(
                    wdv,
                    pdv[k as int],
                    k as int,
                    0,
                ) =~= files_at(wdv, pdv[k as int], k as int, 0));
            }
            while ti < types.len()
                invariant
                    ti <= types.len(),
                    types@ == file_types(),
                    wdv == working_directory.deep_view(),
                    pdv == present.deep_view(),
                    k < present@.len(),
                    present@.len() == working_directory@.len() + 1,
                    depth == working_directory@.len() - k,
                    pdv[k as int] == present@[k as int]@,
                    present@[k as int]@.len() == file_types().len(),
                    probes == &present@[k as int],
                    files@.map_values(|f: DependencyFile| f@) + files_at(
                        wdv,
                        pdv[k as int],
                        k as int,
                        ti as int,
                    ) == files_at(wdv, pdv[k as int], k as int, 0),
                decreases types.len() - ti,
            {
                let ghost files_before = files@;
                if probes[ti] {
                    let mut path: Vec<String> = Vec::new();
                    let mut j: usize = 0;
                    while j < depth
                        invariant
                            j <= depth,
                            depth <= working_directory@.len(),
                            path@.len() == j,
                            forall|x: int| 0 <= x < j ==> path@[x] == working_directory@[x],
                        decreases depth - j,
                    {
                        path.push(working_directory[j].clone());
                        j = j + 1;
                    }
                    path.push(types[ti].file_name());
                    let file = DependencyFile { file_type: types[ti], path };
                    proof {
                        assert(file@.1 =~= dir_at(wdv, k as int).push(
                            spec_file_name(file_types()[ti as int]),
                        ));
                    }
                    files.push(file);
                    proof {
                        assert(files@.map_values(|f: DependencyFile| f@) =~= files_before.map_values(
                            |f: DependencyFile| f@,
                        ).push((file_types()[ti as int], dir_at(wdv, k as int).push(
                            spec_file_name(file_types()[ti as int]),
                        ))));
                        assert(files@.map_values(|f: DependencyFile| f@) + files_at(
                            wdv,
                            pdv[k as int],
                            k as int,
                            ti + 1,
                        ) =~= files_before.map_values(|f: DependencyFile| f@) + files_at(
                            wdv,
                            pdv[k as int],
                            k as int,
                            ti as int,
                        ));
                    }
                } else {
                    proof {
                        assert(files_at(wdv, pdv[k as int], k as int, ti as int) == files_at(
                            wdv,
                            pdv[k as int],
                            k as int,
                            ti + 1,
                        ));
                    }
                }
                ti = ti + 1;
            }
            proof {
                assert(files_at(wdv, pdv[k as int], k as int, types@.len() as int)
                    =~= Seq::<(DependencyFileType, Seq<Seq<char>>)>::empty());
                assert(files@.map_values(|f: DependencyFile| f@) =~= files_at(
                    wdv,
                    pdv[k as int],
                    k as int,
                    0,
                ));
            }
            return Some(files);
        }
        proof {
            assert(!level_matches(pdv[k as int]));
        }
        k = k + 1;
    }
    proof {
        assert(first_match_from(pdv, present@.len() as int) is None);
    }
    None
}

/// Locator idempotence: on one directory tree, repeated locations from the
/// same starting directory agree.
pub proof fn lemma_locate_idempotent(
    wd: Seq<Seq<char>>,
    present: Seq<Seq<bool>>,
    r1: Option<Seq<(DependencyFileType, Seq<Seq<char>>)>>,
    r2: Option<Seq<(DependencyFileType, Seq<Seq<char>>)>>,
)
    requires
        r1 == locate_spec(wd, present),
        r2 == locate_spec(wd, present),
    ensures
        r1 == r2,
{
}

/// The nearest matching level, and only it, is reported.
pub proof fn lemma_first_match_props(present: Seq<Seq<bool>>, i: int)
    requires
        0 <= i,
    ensures
        match first_match_from(present, i) {
            Some(k) => i <= k < present.len() && level_matches(present[k]) && (forall|m: int|
                i <= m < k ==> !level_matches(#[trigger] present[m])),
            None => forall|m: int| i <= m < present.len() ==> !level_matches(#[trigger] present[m]),
        },
    decreases present.len() - i,
{
    if i < present.len() && !level_matches(present[i]) {
        lemma_first_match_props(present, i + 1);
    }
}

/// Locator nearest-wins: when a level matches, location succeeds, at a level
/// no farther from the start than that one, and every level nearer than the
/// chosen one has no recognized file.
pub proof fn lemma_locate_nearest_wins(wd: Seq<Seq<char>>, present: Seq<Seq<bool>>, j: int)
    requires
        0 <= j < present.len(),
        level_matches(present[j]),
    ensures
        locate_spec(wd, present) is Some,
        first_match_from(present, 0) matches Some(k) && 0 <= k <= j && level_matches(present[k])
            && (forall|m: int| 0 <= m < k ==> !level_matches(#[trigger] present[m])),
{
    lemma_first_match_props(present, 0);
}

/// Locator termination at the root: starting at the root itself, with no
/// recognized file there, the one and only level is checked and location
/// reports "not found".
pub proof fn lemma_locate_root(wd: Seq<Seq<char>>, present: Seq<Seq<bool>>)
    requires
        wd.len() == 0,
        present.len() == 1,
        !level_matches(present[0]),
    ensures
        locate_spec(wd, present) is None,
{
    assert(first_match_from(present, 1) is None);
}

} // verus!
