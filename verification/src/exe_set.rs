use vstd::prelude::*;
use rustc_hash::FxHashSet;

verus! {

#[verifier::external_type_specification]
#[verifier::external_body]
pub struct ExFxBuildHasher(rustc_hash::FxBuildHasher);

/// The names that an `FxHashSet<String>` holds, each taken by its characters.
pub uninterp spec fn exe_names(set: FxHashSet<String>) -> Set<Seq<char>>;

/// `FxHashSet::default()`: a set that holds no name.
#[verifier::external_body]
pub(crate) fn new_exe_set() -> (set: FxHashSet<String>)
    ensures
        exe_names(set) == Set::<Seq<char>>::empty(),
{
    FxHashSet::default()
}

/// `HashSet::insert`: the set afterwards holds what it held and `name`; the result says
/// whether `name` was new to it.
#[verifier::external_body]
pub(crate) fn insert_exe_name(set: &mut FxHashSet<String>, name: String) -> (added: bool)
    ensures
        exe_names(*final(set)) == exe_names(*old(set)).insert(name@),
        added == !exe_names(*old(set)).contains(name@),
{
    set.insert(name)
}

/// `HashSet::contains`: whether the set holds a string equal to `name`.
#[verifier::external_body]
pub(crate) fn contains_exe_name(set: &FxHashSet<String>, name: &String) -> (r: bool)
    ensures
        r == exe_names(*set).contains(name@),
{
    set.contains(name)
}

} // verus!
