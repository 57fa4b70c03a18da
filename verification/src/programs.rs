use vstd::prelude::*;
use rustc_hash::FxHashSet;
use crate::exe_set::{contains_exe_name, exe_names};
use crate::strings::{
    decode_utf16_lossy, file_name_admissible, lowercase, opt_chars, path_file_name, to_lowercase,
    utf16_decode,
};

verus! {

/// The wide-character paths as character sequences.
pub open spec fn wide_paths(paths: Seq<Vec<u16>>) -> Seq<Seq<u16>> {
    paths.map_values(|p: Vec<u16>| p@)
}

/// What holds of the lower-cased file name that is found for `path`, whatever
/// `Path::file_name` made of it: `r` is the lower-case form of an admissible file name,
/// or there is none and then the path is not a bare name.
pub open spec fn lowered_name_admissible(path: Seq<char>, r: Option<Seq<char>>) -> bool {
    match r {
        None => file_name_admissible(path, None),
        Some(n) => exists|f: Seq<char>| file_name_admissible(path, Some(f)) && n == lowercase(f),
    }
}

/// Whether a (lower-cased) file name is one of `listed`.
pub open spec fn name_listed(name: Option<Seq<char>>, listed: Set<Seq<char>>) -> bool {
    match name {
        Some(n) => listed.contains(n),
        None => false,
    }
}

/// The lower-cased file name of a program path given in UTF-16.
pub fn get_filename_from_hstring(hstring_path: &[u16]) -> (r: Option<String>)
    ensures
        lowered_name_admissible(utf16_decode(hstring_path@), opt_chars(r)),
{
    let path_str = decode_utf16_lossy(hstring_path);
    match path_file_name(path_str.as_str()) {
        Some(name) => {
            let lowered = to_lowercase(name.as_str());
            assert(file_name_admissible(path_str@, Some(name@)));
            Some(lowered)
        },
        None => None,
    }
}

/// Whether a file name, as found for a path, is in the set `names`.
pub fn is_name_listed(file_name: &Option<String>, names: &FxHashSet<String>) -> (r: bool)
    ensures
        r == name_listed(opt_chars(*file_name), exe_names(*names)),
{
    match file_name {
        Some(n) => contains_exe_name(names, n),
        None => false,
    }
}

/// Whether the file name of `hstring_path` is in the exclusion list. A path without a file
/// name is never excluded.
pub fn is_excluded(hstring_path: &[u16], exclusions: &FxHashSet<String>) -> (r: bool)
    ensures
        exists|name: Option<Seq<char>>|
            lowered_name_admissible(utf16_decode(hstring_path@), name) && r == name_listed(
                name,
                exe_names(*exclusions),
            ),
{
    let name = get_filename_from_hstring(hstring_path);
    let r = is_name_listed(&name, exclusions);
    assert(lowered_name_admissible(utf16_decode(hstring_path@), opt_chars(name)));
    r
}

/// The lower-cased file names of `paths`, one for each path.
pub fn file_names_of(paths: &Vec<Vec<u16>>) -> (names: Vec<Option<String>>)
    ensures
        names.len() == paths.len(),
        forall|k: int|
            0 <= k < paths.len() ==> lowered_name_admissible(
                utf16_decode(#[trigger] paths@[k]@),
                opt_chars(names@[k]),
            ),
{
    let mut names: Vec<Option<String>> = Vec::new();
    let mut i: usize = 0;
    while i < paths.len()
        invariant
            i <= paths.len(),
            names.len() == i,
            forall|k: int|
                0 <= k < i ==> lowered_name_admissible(
                    utf16_decode(#[trigger] paths@[k]@),
                    opt_chars(names@[k]),
                ),
        decreases paths.len() - i,
    {
        let n = get_filename_from_hstring(paths[i].as_slice());
        names.push(n);
        i = i + 1;
    }
    names
}

/// The file names, each taken by its characters.
pub open spec fn names_view(names: Seq<Option<String>>) -> Seq<Option<Seq<char>>> {
    names.map_values(|o: Option<String>| opt_chars(o))
}

/// The first `n` of `paths`, in order, without those whose file name is listed.
pub open spec fn kept_upto(
    paths: Seq<Seq<u16>>,
    names: Seq<Option<Seq<char>>>,
    listed: Set<Seq<char>>,
    n: nat,
) -> Seq<Seq<u16>>
    decreases n,
{
    if n == 0 {
        seq![]
    } else {
        let prev = kept_upto(paths, names, listed, (n - 1) as nat);
        if name_listed(names[n - 1], listed) {
            prev
        } else {
            prev.push(paths[n - 1])
        }
    }
}

proof fn lemma_kept_len(
    paths: Seq<Seq<u16>>,
    names: Seq<Option<Seq<char>>>,
    listed: Set<Seq<char>>,
    n: nat,
)
    ensures
        kept_upto(paths, names, listed, n).len() <= n,
    decreases n,
{
    if n > 0 {
        lemma_kept_len(paths, names, listed, (n - 1) as nat);
    }
}

/// The paths whose file name (given in `names`, one for each path) is not listed, in order.
pub fn retain_unlisted(
    paths: &Vec<Vec<u16>>,
    names: &Vec<Option<String>>,
    listed: &FxHashSet<String>,
) -> (kept: Vec<Vec<u16>>)
    requires
        names.len() == paths.len(),
    ensures
        wide_paths(kept@) == kept_upto(
            wide_paths(paths@),
            names_view(names@),
            exe_names(*listed),
            paths.len() as nat,
        ),
{
    let mut kept: Vec<Vec<u16>> = Vec::new();
    let mut i: usize = 0;
    while i < paths.len()
        invariant
            names.len() == paths.len(),
            i <= paths.len(),
            wide_paths(kept@) == kept_upto(
                wide_paths(paths@),
                names_view(names@),
                exe_names(*listed),
                i as nat,
            ),
        decreases paths.len() - i,
    {
        let listed_here = is_name_listed(&names[i], listed);
        assert(names_view(names@)[i as int] == opt_chars(names@[i as int]));
        if !listed_here {
            let p = paths[i].clone();
            assert(p@ =~= paths@[i as int]@);
            kept.push(p);
            assert(wide_paths(kept@) =~= kept_upto(
                wide_paths(paths@),
                names_view(names@),
                exe_names(*listed),
                i as nat,
            ).push(wide_paths(paths@)[i as int]));
        }
        i = i + 1;
    }
    kept
}

/// The programs to manage and the counts that are reported of them.
pub struct ProgramList {
    /// The Store apps, then the executables that are not excluded, in order.
    pub programs: Vec<Vec<u16>>,
    /// How many Store apps were found.
    pub store_app_count: usize,
    /// How many executables the exclusion list took out.
    pub excluded_count: usize,
    /// How many executables are left in the list of kept executables once they have been
    /// moved to the end of `programs`: none. This is the number that the summary line
    /// reports as the EXEs after exclusions.
    pub exes_after_exclusions: usize,
}

/// All programs to manage: the Store apps (never subject to exclusion), followed by the
/// executables whose file name is not in `exclusions`.
pub fn get_all_programs(
    store_apps: Vec<Vec<u16>>,
    exes: Vec<Vec<u16>>,
    exclusions: &FxHashSet<String>,
) -> (list: ProgramList)
    requires
        store_apps.len() + exes.len() <= usize::MAX,
    ensures
        exists|names: Seq<Option<Seq<char>>>|
            {
                &&& names.len() == exes.len()
                &&& forall|k: int|
                    0 <= k < exes.len() ==> lowered_name_admissible(
                        utf16_decode(#[trigger] exes@[k]@),
                        names[k],
                    )
                &&& wide_paths(list.programs@) == wide_paths(store_apps@) + kept_upto(
                    wide_paths(exes@),
                    names,
                    exe_names(*exclusions),
                    exes.len() as nat,
                )
                &&& list.excluded_count == exes.len() - kept_upto(
                    wide_paths(exes@),
                    names,
                    exe_names(*exclusions),
                    exes.len() as nat,
                ).len()
            },
        list.store_app_count == store_apps.len(),
        list.exes_after_exclusions == 0,
{
    let names = file_names_of(&exes);
    let mut kept = retain_unlisted(&exes, &names, exclusions);
    proof {
        lemma_kept_len(wide_paths(exes@), names_view(names@), exe_names(*exclusions), exes.len() as nat);
    }
    let store_app_count = store_apps.len();
    let excluded_count = exes.len() - kept.len();
    let mut programs = store_apps;
    let ghost apps = programs@;
    let ghost kept_view = kept@;
    programs.append(&mut kept);
    let exes_after_exclusions = kept.len();
    assert(wide_paths(programs@) =~= wide_paths(apps) + wide_paths(kept_view));
    let ghost witness = names_view(names@);
    assert forall|k: int| 0 <= k < exes.len() implies lowered_name_admissible(
        utf16_decode(#[trigger] exes@[k]@),
        witness[k],
    ) by {
        assert(witness[k] == opt_chars(names@[k]));
    }
    ProgramList { programs, store_app_count, excluded_count, exes_after_exclusions }
}

/// `a` is `b` with some of its items left out: the items of `a` stand in `b` in the
/// same order.
pub open spec fn is_subsequence(a: Seq<Seq<u16>>, b: Seq<Seq<u16>>) -> bool {
    exists|idx: Seq<int>| is_embedding(idx, a, b)
}

/// `idx` places each item of `a` at a position of `b` that holds it, in increasing order.
pub open spec fn is_embedding(idx: Seq<int>, a: Seq<Seq<u16>>, b: Seq<Seq<u16>>) -> bool {
    &&& idx.len() == a.len()
    &&& forall|i: int, j: int| 0 <= i < j < idx.len() ==> idx[i] < idx[j]
    &&& forall|i: int| 0 <= i < idx.len() ==> 0 <= #[trigger] idx[i] < b.len() && a[i] == b[idx[i]]
}

proof fn lemma_kept_embedding(
    paths: Seq<Seq<u16>>,
    names: Seq<Option<Seq<char>>>,
    fewer: Set<Seq<char>>,
    more: Set<Seq<char>>,
    n: nat,
) -> (idx: Seq<int>)
    requires
        fewer.subset_of(more),
    ensures
        is_embedding(idx, kept_upto(paths, names, more, n), kept_upto(paths, names, fewer, n)),
    decreases n,
{
    if n == 0 {
        Seq::empty()
    } else {
        let prev = lemma_kept_embedding(paths, names, fewer, more, (n - 1) as nat);
        let a = kept_upto(paths, names, more, (n - 1) as nat);
        let b = kept_upto(paths, names, fewer, (n - 1) as nat);
        if name_listed(names[n - 1], more) {
            if !name_listed(names[n - 1], fewer) {
                assert forall|i: int| 0 <= i < prev.len() implies 0 <= #[trigger] prev[i]
                    < b.push(paths[n - 1]).len() && a[i] == b.push(paths[n - 1])[prev[i]] by {}
            }
            prev
        } else {
            assert(!name_listed(names[n - 1], fewer));
            let idx = prev.push(b.len() as int);
            assert forall|i: int| 0 <= i < idx.len() implies 0 <= #[trigger] idx[i] < b.push(
                paths[n - 1],
            ).len() && a.push(paths[n - 1])[i] == b.push(paths[n - 1])[idx[i]] by {
                if i < prev.len() {
                    assert(idx[i] == prev[i]);
                }
            }
            idx
        }
    }
}

/// A larger exclusion list keeps fewer executables: what it keeps is what the smaller one
/// keeps with some items left out, in the same order.
pub proof fn law_more_exclusions_keep_a_subsequence(
    paths: Seq<Seq<u16>>,
    names: Seq<Option<Seq<char>>>,
    fewer: Set<Seq<char>>,
    more: Set<Seq<char>>,
    n: nat,
)
    requires
        fewer.subset_of(more),
    ensures
        is_subsequence(kept_upto(paths, names, more, n), kept_upto(paths, names, fewer, n)),
{
    let idx = lemma_kept_embedding(paths, names, fewer, more, n);
    assert(is_embedding(idx, kept_upto(paths, names, more, n), kept_upto(paths, names, fewer, n)));
}

} // verus!
