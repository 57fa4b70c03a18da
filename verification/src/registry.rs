use vstd::prelude::*;
use rustc_hash::FxHashSet;
use crate::exe_set::{contains_exe_name, exe_names};
use crate::programs::{file_names_of, lowered_name_admissible, names_view};
use crate::strings::{encode_utf16, law_utf16_roundtrip, opt_chars, utf16_decode, utf16_encode};

verus! {

/// The GPU that programs are asked to run on.
#[derive(PartialEq, Eq, Structural, Clone, Copy, Debug)]
pub enum GpuMode {
    /// The dedicated (discrete) GPU.
    Dedicated,
    /// The integrated GPU.
    Integrated,
    /// No global preference: used to reset, when only the per-program lists apply.
    NoPreference,
}

// ---------------------------------------------------------------------------
// Which preference a program gets
// ---------------------------------------------------------------------------

/// The global mode as a preference: none for `NoPreference`.
pub open spec fn global_preference(global: GpuMode) -> Option<GpuMode> {
    if global != GpuMode::NoPreference {
        Some(global)
    } else {
        None
    }
}

/// The preference written for a program whose lower-cased file name is `name` (none when
/// the path yields no file name). A name in both per-program lists, or in neither, gets
/// the global mode; one in a single list gets that list's GPU; an excluded name that is
/// in neither per-program list gets nothing.
pub open spec fn spec_effective_mode(
    name: Option<Seq<char>>,
    global: GpuMode,
    dedicated: Set<Seq<char>>,
    integrated: Set<Seq<char>>,
    excluded: Set<Seq<char>>,
) -> Option<GpuMode> {
    match name {
        None => global_preference(global),
        Some(n) => if dedicated.contains(n) && integrated.contains(n) {
            global_preference(global)
        } else if dedicated.contains(n) {
            Some(GpuMode::Dedicated)
        } else if integrated.contains(n) {
            Some(GpuMode::Integrated)
        } else if excluded.contains(n) {
            None
        } else {
            global_preference(global)
        },
    }
}

/// The preference to write for a program with the (lower-cased) file name `file_name`.
pub fn effective_mode(
    file_name: &Option<String>,
    global_mode: GpuMode,
    dedicated_exes: &FxHashSet<String>,
    integrated_exes: &FxHashSet<String>,
    excluded_exes: &FxHashSet<String>,
) -> (r: Option<GpuMode>)
    ensures
        r == spec_effective_mode(
            opt_chars(*file_name),
            global_mode,
            exe_names(*dedicated_exes),
            exe_names(*integrated_exes),
            exe_names(*excluded_exes),
        ),
{
    let global = if global_mode != GpuMode::NoPreference {
        Some(global_mode)
    } else {
        None
    };
    match file_name {
        None => global,
        Some(filename) => {
            let is_in_dedicated = contains_exe_name(dedicated_exes, filename);
            let is_in_integrated = contains_exe_name(integrated_exes, filename);
            if is_in_dedicated && is_in_integrated {
                global
            } else if is_in_dedicated {
                Some(GpuMode::Dedicated)
            } else if is_in_integrated {
                Some(GpuMode::Integrated)
            } else if contains_exe_name(excluded_exes, filename) {
                None
            } else {
                global
            }
        },
    }
}

// ---------------------------------------------------------------------------
// The values to write
// ---------------------------------------------------------------------------

/// One registry value to write: the program (by its index in the program list) and its GPU.
#[derive(PartialEq, Eq, Structural, Clone, Copy, Debug)]
pub struct PlannedValue {
    pub program: usize,
    pub mode: GpuMode,
}

/// The values to write for the first `n` programs, whose file names are `names`, in order.
pub open spec fn spec_plan(
    names: Seq<Option<Seq<char>>>,
    global: GpuMode,
    dedicated: Set<Seq<char>>,
    integrated: Set<Seq<char>>,
    excluded: Set<Seq<char>>,
    n: nat,
) -> Seq<PlannedValue>
    decreases n,
{
    if n == 0 {
        seq![]
    } else {
        let prev = spec_plan(names, global, dedicated, integrated, excluded, (n - 1) as nat);
        match spec_effective_mode(names[n - 1], global, dedicated, integrated, excluded) {
            Some(m) => prev.push(PlannedValue { program: (n - 1) as usize, mode: m }),
            None => prev,
        }
    }
}

/// The values to write, given the file name of each program (`names[i]` for program `i`).
pub fn plan_from_names(
    names: &Vec<Option<String>>,
    global_mode: GpuMode,
    dedicated_exes: &FxHashSet<String>,
    integrated_exes: &FxHashSet<String>,
    excluded_exes: &FxHashSet<String>,
) -> (plan: Vec<PlannedValue>)
    ensures
        plan@ == spec_plan(
            names_view(names@),
            global_mode,
            exe_names(*dedicated_exes),
            exe_names(*integrated_exes),
            exe_names(*excluded_exes),
            names.len() as nat,
        ),
{
    let mut plan: Vec<PlannedValue> = Vec::new();
    let mut i: usize = 0;
    while i < names.len()
        invariant
            i <= names.len(),
            plan@ == spec_plan(
                names_view(names@),
                global_mode,
                exe_names(*dedicated_exes),
                exe_names(*integrated_exes),
                exe_names(*excluded_exes),
                i as nat,
            ),
        decreases names.len() - i,
    {
        let m = effective_mode(&names[i], global_mode, dedicated_exes, integrated_exes, excluded_exes);
        assert(names_view(names@)[i as int] == opt_chars(names@[i as int]));
        match m {
            Some(mode) => plan.push(PlannedValue { program: i, mode }),
            None => {},
        }
        i = i + 1;
    }
    plan
}

/// The values to write for `programs` (paths in UTF-16): for each program, in order, the
/// preference that its lower-cased file name gets, where it gets one.
pub fn plan_registry_values(
    programs: &Vec<Vec<u16>>,
    global_mode: GpuMode,
    dedicated_exes: &FxHashSet<String>,
    integrated_exes: &FxHashSet<String>,
    excluded_exes: &FxHashSet<String>,
) -> (plan: Vec<PlannedValue>)
    ensures
        exists|names: Seq<Option<Seq<char>>>|
            {
                &&& names.len() == programs.len()
                &&& forall|k: int|
                    0 <= k < programs.len() ==> lowered_name_admissible(
                        utf16_decode(#[trigger] programs@[k]@),
                        names[k],
                    )
                &&& plan@ == spec_plan(
                    names,
                    global_mode,
                    exe_names(*dedicated_exes),
                    exe_names(*integrated_exes),
                    exe_names(*excluded_exes),
                    programs.len() as nat,
                )
            },
{
    let names = file_names_of(programs);
    let plan = plan_from_names(&names, global_mode, dedicated_exes, integrated_exes, excluded_exes);
    let ghost witness = names_view(names@);
    assert forall|k: int| 0 <= k < programs.len() implies lowered_name_admissible(
        utf16_decode(#[trigger] programs@[k]@),
        witness[k],
    ) by {
        assert(witness[k] == opt_chars(names@[k]));
    }
    assert(witness.len() == programs.len());
    assert(plan@ == spec_plan(
        witness,
        global_mode,
        exe_names(*dedicated_exes),
        exe_names(*integrated_exes),
        exe_names(*excluded_exes),
        programs.len() as nat,
    ));
    plan
}

/// A name in both per-program lists is a conflict: it gets the global mode, and nothing
/// when there is no global mode.
pub proof fn law_conflict_takes_global(
    n: Seq<char>,
    global: GpuMode,
    dedicated: Set<Seq<char>>,
    integrated: Set<Seq<char>>,
    excluded: Set<Seq<char>>,
)
    requires
        dedicated.contains(n),
        integrated.contains(n),
    ensures
        spec_effective_mode(Some(n), global, dedicated, integrated, excluded)
            == global_preference(global),
{
}

/// A name in exactly one per-program list gets that list's GPU, whatever the global mode
/// and the exclusion list.
pub proof fn law_single_list_gets_its_gpu(
    n: Seq<char>,
    global: GpuMode,
    dedicated: Set<Seq<char>>,
    integrated: Set<Seq<char>>,
    excluded: Set<Seq<char>>,
)
    ensures
        dedicated.contains(n) && !integrated.contains(n) ==> spec_effective_mode(
            Some(n),
            global,
            dedicated,
            integrated,
            excluded,
        ) == Some(GpuMode::Dedicated),
        integrated.contains(n) && !dedicated.contains(n) ==> spec_effective_mode(
            Some(n),
            global,
            dedicated,
            integrated,
            excluded,
        ) == Some(GpuMode::Integrated),
{
}

/// A program in no list, and a program whose path yields no file name, gets the global
/// mode: the dedicated GPU under `Dedicated`, the integrated one under `Integrated`, and
/// nothing under `NoPreference`.
pub proof fn law_unlisted_gets_global_mode(
    name: Option<Seq<char>>,
    global: GpuMode,
    dedicated: Set<Seq<char>>,
    integrated: Set<Seq<char>>,
    excluded: Set<Seq<char>>,
)
    requires
        name matches Some(n) ==> !dedicated.contains(n) && !integrated.contains(n)
            && !excluded.contains(n),
    ensures
        global == GpuMode::Dedicated ==> spec_effective_mode(
            name,
            global,
            dedicated,
            integrated,
            excluded,
        ) == Some(GpuMode::Dedicated),
        global == GpuMode::Integrated ==> spec_effective_mode(
            name,
            global,
            dedicated,
            integrated,
            excluded,
        ) == Some(GpuMode::Integrated),
        global == GpuMode::NoPreference ==> spec_effective_mode(
            name,
            global,
            dedicated,
            integrated,
            excluded,
        ) is None,
{
}

/// No program is ever given `NoPreference` as its value.
pub proof fn law_never_writes_no_preference(
    name: Option<Seq<char>>,
    global: GpuMode,
    dedicated: Set<Seq<char>>,
    integrated: Set<Seq<char>>,
    excluded: Set<Seq<char>>,
)
    ensures
        spec_effective_mode(name, global, dedicated, integrated, excluded) != Some(
            GpuMode::NoPreference,
        ),
{
}

/// With no global mode (a reset), a program gets a value only when its file name is in
/// exactly one per-program list, and then it gets that list's GPU.
pub proof fn law_reset_keeps_only_listed(
    name: Option<Seq<char>>,
    dedicated: Set<Seq<char>>,
    integrated: Set<Seq<char>>,
    excluded: Set<Seq<char>>,
)
    ensures
        spec_effective_mode(name, GpuMode::NoPreference, dedicated, integrated, excluded) == (
        match name {
            Some(n) => if dedicated.contains(n) && !integrated.contains(n) {
                Some(GpuMode::Dedicated)
            } else if integrated.contains(n) && !dedicated.contains(n) {
                Some(GpuMode::Integrated)
            } else {
                None
            },
            None => None,
        }),
{
}

/// The exclusion list only keeps the global mode away: a name in a per-program list gets
/// the same value whatever the exclusion list holds, and an excluded name in neither
/// per-program list gets nothing.
pub proof fn law_exclusion_only_blocks_global(
    n: Seq<char>,
    global: GpuMode,
    dedicated: Set<Seq<char>>,
    integrated: Set<Seq<char>>,
    excluded: Set<Seq<char>>,
    other_excluded: Set<Seq<char>>,
)
    ensures
        dedicated.contains(n) || integrated.contains(n) ==> spec_effective_mode(
            Some(n),
            global,
            dedicated,
            integrated,
            excluded,
        ) == spec_effective_mode(Some(n), global, dedicated, integrated, other_excluded),
        excluded.contains(n) && !dedicated.contains(n) && !integrated.contains(n)
            ==> spec_effective_mode(Some(n), global, dedicated, integrated, excluded) is None,
{
}

/// The plan names programs in increasing order, each at most once, and program `k` is in
/// it exactly when its file name gets a preference, with that preference.
pub proof fn law_plan_covers_each_program(
    names: Seq<Option<Seq<char>>>,
    global: GpuMode,
    dedicated: Set<Seq<char>>,
    integrated: Set<Seq<char>>,
    excluded: Set<Seq<char>>,
    n: nat,
)
    requires
        n <= names.len(),
        n <= usize::MAX + 1,
    ensures
        ({
            let plan = spec_plan(names, global, dedicated, integrated, excluded, n);
            &&& forall|i: int, j: int|
                0 <= i < j < plan.len() ==> (plan[i].program as int) < (plan[j].program as int)
            &&& forall|i: int| 0 <= i < plan.len() ==> (plan[i].program as int) < n
            &&& forall|k: int|
                0 <= k < n ==> match spec_effective_mode(
                    #[trigger] names[k],
                    global,
                    dedicated,
                    integrated,
                    excluded,
                ) {
                    Some(m) => exists|i: int|
                        0 <= i < plan.len() && #[trigger] plan[i] == PlannedValue {
                            program: k as usize,
                            mode: m,
                        },
                    None => forall|i: int|
                        0 <= i < plan.len() ==> (#[trigger] plan[i]).program as int != k,
                }
        }),
    decreases n,
{
    if n > 0 {
        law_plan_covers_each_program(names, global, dedicated, integrated, excluded, (n - 1) as nat);
        let prev = spec_plan(names, global, dedicated, integrated, excluded, (n - 1) as nat);
        let plan = spec_plan(names, global, dedicated, integrated, excluded, n);
        assert forall|k: int| 0 <= k < n - 1 implies match spec_effective_mode(
            #[trigger] names[k],
            global,
            dedicated,
            integrated,
            excluded,
        ) {
            Some(m) => exists|i: int|
                0 <= i < plan.len() && #[trigger] plan[i] == PlannedValue {
                    program: k as usize,
                    mode: m,
                },
            None => forall|i: int| 0 <= i < plan.len() ==> (#[trigger] plan[i]).program as int != k,
        } by {
            match spec_effective_mode(names[k], global, dedicated, integrated, excluded) {
                Some(m) => {
                    let i = choose|i: int|
                        0 <= i < prev.len() && #[trigger] prev[i] == PlannedValue {
                            program: k as usize,
                            mode: m,
                        };
                    assert(plan[i] == prev[i]);
                },
                None => {},
            }
        }
        let k = n - 1;
        match spec_effective_mode(names[k], global, dedicated, integrated, excluded) {
            Some(m) => {
                assert(plan[prev.len() as int] == PlannedValue { program: k as usize, mode: m });
            },
            None => {},
        }
    }
}

/// A reset with no per-program lists plans no value at all, so the key is left empty.
pub proof fn law_reset_plans_nothing(
    names: Seq<Option<Seq<char>>>,
    excluded: Set<Seq<char>>,
    n: nat,
)
    requires
        n <= names.len(),
    ensures
        spec_plan(
            names,
            GpuMode::NoPreference,
            Set::<Seq<char>>::empty(),
            Set::<Seq<char>>::empty(),
            excluded,
            n,
        ) == Seq::<PlannedValue>::empty(),
    decreases n,
{
    if n > 0 {
        law_reset_plans_nothing(names, excluded, (n - 1) as nat);
    }
}

/// The plan holds the value `m` for program `k`.
pub open spec fn plan_gives(plan: Seq<PlannedValue>, k: int, m: GpuMode) -> bool {
    exists|i: int| 0 <= i < plan.len() && #[trigger] plan[i] == PlannedValue { program: k as usize, mode: m }
}

proof fn lemma_plan_gives(
    names: Seq<Option<Seq<char>>>,
    global: GpuMode,
    dedicated: Set<Seq<char>>,
    integrated: Set<Seq<char>>,
    excluded: Set<Seq<char>>,
    k: int,
    m: GpuMode,
)
    requires
        names.len() <= usize::MAX,
        0 <= k < names.len(),
    ensures
        plan_gives(
            spec_plan(names, global, dedicated, integrated, excluded, names.len() as nat),
            k,
            m,
        ) <==> spec_effective_mode(names[k], global, dedicated, integrated, excluded) == Some(m),
{
    let plan = spec_plan(names, global, dedicated, integrated, excluded, names.len() as nat);
    law_plan_covers_each_program(names, global, dedicated, integrated, excluded, names.len() as nat);
    if plan_gives(plan, k, m) {
        let i = choose|i: int|
            0 <= i < plan.len() && #[trigger] plan[i] == PlannedValue { program: k as usize, mode: m };
        match spec_effective_mode(names[k], global, dedicated, integrated, excluded) {
            Some(m2) => {
                let j = choose|j: int|
                    0 <= j < plan.len() && #[trigger] plan[j] == PlannedValue {
                        program: k as usize,
                        mode: m2,
                    };
                if i < j {
                    assert((plan[i].program as int) < (plan[j].program as int));
                } else if j < i {
                    assert((plan[j].program as int) < (plan[i].program as int));
                }
            },
            None => {
                assert(plan[i].program as int != k);
            },
        }
    }
}

/// The value that a program gets depends on its file name alone, not on where it stands
/// in the program list nor on how often it occurs: two programs with the same file name,
/// in the same or in different lists, get the same value (or both none).
pub proof fn law_value_depends_only_on_name(
    names1: Seq<Option<Seq<char>>>,
    names2: Seq<Option<Seq<char>>>,
    global: GpuMode,
    dedicated: Set<Seq<char>>,
    integrated: Set<Seq<char>>,
    excluded: Set<Seq<char>>,
    k1: int,
    k2: int,
    m: GpuMode,
)
    requires
        names1.len() <= usize::MAX,
        names2.len() <= usize::MAX,
        0 <= k1 < names1.len(),
        0 <= k2 < names2.len(),
        names1[k1] == names2[k2],
    ensures
        plan_gives(
            spec_plan(names1, global, dedicated, integrated, excluded, names1.len() as nat),
            k1,
            m,
        ) <==> plan_gives(
            spec_plan(names2, global, dedicated, integrated, excluded, names2.len() as nat),
            k2,
            m,
        ),
{
    lemma_plan_gives(names1, global, dedicated, integrated, excluded, k1, m);
    lemma_plan_gives(names2, global, dedicated, integrated, excluded, k2, m);
}

// ---------------------------------------------------------------------------
// The value data
// ---------------------------------------------------------------------------

/// The registry string that asks for a GPU: `GpuPreference=2;` for the dedicated GPU,
/// `GpuPreference=1;` for the integrated one, none for no preference.
pub open spec fn preference_text(mode: GpuMode) -> Option<Seq<char>> {
    match mode {
        GpuMode::Dedicated => Some("GpuPreference=2;"@),
        GpuMode::Integrated => Some("GpuPreference=1;"@),
        GpuMode::NoPreference => None,
    }
}

/// The registry string for `mode`.
pub fn preference_value(mode: GpuMode) -> (r: Option<&'static str>)
    ensures
        match r {
            Some(t) => preference_text(mode) == Some(t@),
            None => preference_text(mode) is None,
        },
{
    match mode {
        GpuMode::Dedicated => Some("GpuPreference=2;"),
        GpuMode::Integrated => Some("GpuPreference=1;"),
        GpuMode::NoPreference => None,
    }
}

/// The UTF-16 units of the registry string for `mode`, with its terminating NUL.
pub open spec fn value_units(mode: GpuMode) -> Option<Seq<u16>> {
    match preference_text(mode) {
        Some(t) => Some(utf16_encode(t).push(0u16)),
        None => None,
    }
}

/// The UTF-16 units of the registry string for `mode`, NUL-terminated.
pub fn preference_value_units(mode: GpuMode) -> (r: Option<Vec<u16>>)
    ensures
        match r {
            Some(u) => value_units(mode) == Some(u@),
            None => value_units(mode) is None,
        },
{
    match preference_value(mode) {
        Some(text) => {
            let mut units = encode_utf16(text);
            units.push(0);
            Some(units)
        },
        None => None,
    }
}

/// `bytes` holds the units of `units`, two bytes each, all in the same byte order
/// (little-endian or big-endian).
pub open spec fn bytes_of_units(bytes: Seq<u8>, units: Seq<u16>) -> bool {
    &&& bytes.len() == 2 * units.len()
    &&& {
        ||| forall|k: int|
            0 <= k < units.len() ==> #[trigger] units[k] == bytes[2 * k] + 256 * bytes[2 * k + 1]
        ||| forall|k: int|
            0 <= k < units.len() ==> #[trigger] units[k] == 256 * bytes[2 * k] + bytes[2 * k + 1]
    }
}

/// `bytemuck::cast_slice` from `u16` to `u8`: the same memory seen as bytes, so each
/// unit becomes two bytes in the machine's byte order. Which order that is depends on
/// the machine, so the contract says only that it is one of the two.
#[verifier::external_body]
fn units_as_bytes(units: &[u16]) -> (bytes: Vec<u8>)
    ensures
        bytes_of_units(bytes@, units@),
{
    bytemuck::cast_slice::<u16, u8>(units).to_vec()
}

/// The data of the registry value for `mode`: its NUL-terminated UTF-16 string as bytes
/// in the machine's byte order.
pub fn preference_value_data(mode: GpuMode) -> (r: Option<Vec<u8>>)
    ensures
        match r {
            Some(b) => value_units(mode) matches Some(u) && bytes_of_units(b@, u),
            None => value_units(mode) is None,
        },
{
    match preference_value_units(mode) {
        Some(units) => Some(units_as_bytes(units.as_slice())),
        None => None,
    }
}

/// The data written for a GPU reads back as its preference string: decoding the value's
/// UTF-16 units up to the terminating NUL gives `GpuPreference=2;` or `GpuPreference=1;`.
pub proof fn law_value_reads_back(mode: GpuMode)
    ensures
        match (value_units(mode), preference_text(mode)) {
            (Some(u), Some(t)) => u.last() == 0 && utf16_decode(u.drop_last()) == t,
            (None, None) => true,
            _ => false,
        },
{
    if let Some(t) = preference_text(mode) {
        law_utf16_roundtrip(t);
        assert(utf16_encode(t).push(0u16).drop_last() =~= utf16_encode(t));
    }
}

} // verus!
