use rustc_hash::FxHashSet;
use win_global_gpu::registry::{
    effective_mode, plan_from_names, plan_registry_values, preference_value, preference_value_data,
    preference_value_units, GpuMode, PlannedValue,
};

fn set_of(names: &[&str]) -> FxHashSet<String> {
    names.iter().map(|n| n.to_string()).collect()
}

fn wide(s: &str) -> Vec<u16> {
    s.encode_utf16().collect()
}

fn name(s: &str) -> Option<String> {
    Some(s.to_string())
}

#[test]
fn unlisted_program_gets_global_mode() {
    let e = FxHashSet::default();
    assert_eq!(effective_mode(&name("game.exe"), GpuMode::Dedicated, &e, &e, &e), Some(GpuMode::Dedicated));
    assert_eq!(effective_mode(&name("game.exe"), GpuMode::Integrated, &e, &e, &e), Some(GpuMode::Integrated));
    assert_eq!(effective_mode(&name("game.exe"), GpuMode::NoPreference, &e, &e, &e), None);
}

#[test]
fn per_program_lists_override_global_mode() {
    let d = set_of(&["game.exe"]);
    let i = set_of(&["editor.exe"]);
    let e = FxHashSet::default();
    assert_eq!(effective_mode(&name("game.exe"), GpuMode::Integrated, &d, &i, &e), Some(GpuMode::Dedicated));
    assert_eq!(effective_mode(&name("editor.exe"), GpuMode::Dedicated, &d, &i, &e), Some(GpuMode::Integrated));
    assert_eq!(effective_mode(&name("game.exe"), GpuMode::NoPreference, &d, &i, &e), Some(GpuMode::Dedicated));
}

#[test]
fn conflict_takes_global_mode() {
    let both = set_of(&["game.exe"]);
    let e = FxHashSet::default();
    assert_eq!(effective_mode(&name("game.exe"), GpuMode::Integrated, &both, &both, &e), Some(GpuMode::Integrated));
    assert_eq!(effective_mode(&name("game.exe"), GpuMode::NoPreference, &both, &both, &e), None);
}

#[test]
fn excluded_program_is_skipped_unless_listed() {
    let d = set_of(&["game.exe"]);
    let e = FxHashSet::default();
    let x = set_of(&["game.exe", "tool.exe"]);
    assert_eq!(effective_mode(&name("tool.exe"), GpuMode::Dedicated, &e, &e, &x), None);
    assert_eq!(effective_mode(&name("game.exe"), GpuMode::Integrated, &d, &e, &x), Some(GpuMode::Dedicated));
}

#[test]
fn program_without_file_name_gets_global_mode() {
    let e = FxHashSet::default();
    let x = set_of(&["tool.exe"]);
    assert_eq!(effective_mode(&None, GpuMode::Dedicated, &e, &e, &x), Some(GpuMode::Dedicated));
    assert_eq!(effective_mode(&None, GpuMode::NoPreference, &e, &e, &x), None);
}

#[test]
fn plan_from_names_in_program_order() {
    let names = vec![name("a.exe"), None, name("b.exe"), name("c.exe")];
    let d = set_of(&["c.exe"]);
    let e = FxHashSet::default();
    let x = set_of(&["b.exe"]);
    assert_eq!(
        plan_from_names(&names, GpuMode::Integrated, &d, &e, &x),
        vec![
            PlannedValue { program: 0, mode: GpuMode::Integrated },
            PlannedValue { program: 1, mode: GpuMode::Integrated },
            PlannedValue { program: 3, mode: GpuMode::Dedicated },
        ]
    );
}

#[test]
fn plan_for_program_paths() {
    let programs = vec![wide("C:/Games/Game.EXE"), wide("C:/Tools/tool.exe")];
    let d = set_of(&["game.exe"]);
    let e = FxHashSet::default();
    assert_eq!(
        plan_registry_values(&programs, GpuMode::NoPreference, &d, &e, &e),
        vec![PlannedValue { program: 0, mode: GpuMode::Dedicated }]
    );
}

#[test]
fn reset_plans_nothing_without_lists() {
    let programs = vec![wide("a.exe"), wide("b.exe")];
    let e = FxHashSet::default();
    assert!(plan_registry_values(&programs, GpuMode::NoPreference, &e, &e, &e).is_empty());
    assert!(plan_registry_values(&vec![], GpuMode::NoPreference, &e, &e, &e).is_empty());
}

#[test]
fn preference_strings() {
    assert_eq!(preference_value(GpuMode::Dedicated), Some("GpuPreference=2;"));
    assert_eq!(preference_value(GpuMode::Integrated), Some("GpuPreference=1;"));
    assert_eq!(preference_value(GpuMode::NoPreference), None);
}

#[test]
fn preference_units_are_nul_terminated() {
    let mut expected: Vec<u16> = "GpuPreference=1;".encode_utf16().collect();
    expected.push(0);
    assert_eq!(preference_value_units(GpuMode::Integrated), Some(expected));
    assert_eq!(preference_value_units(GpuMode::NoPreference), None);
}

#[test]
fn preference_data_is_native_bytes() {
    let data = preference_value_data(GpuMode::Dedicated).unwrap();
    let mut expected = Vec::new();
    for u in "GpuPreference=2;".encode_utf16().chain(std::iter::once(0)) {
        expected.extend_from_slice(&u.to_ne_bytes());
    }
    assert_eq!(data, expected);
    assert_eq!(data.len(), 34);
    assert_eq!(preference_value_data(GpuMode::NoPreference), None);
}

#[test]
fn value_reads_back_as_preference_string() {
    let units = preference_value_units(GpuMode::Dedicated).unwrap();
    assert_eq!(units.last(), Some(&0));
    assert_eq!(String::from_utf16(&units[..units.len() - 1]).unwrap(), "GpuPreference=2;");
}

#[test]
fn same_file_name_gets_same_value_wherever_it_stands() {
    let d = set_of(&["game.exe"]);
    let e = FxHashSet::default();
    let names = vec![name("game.exe"), name("other.exe"), name("game.exe")];
    let plan = plan_from_names(&names, GpuMode::Integrated, &d, &e, &e);
    assert_eq!(plan[0].mode, plan[2].mode);
    assert_eq!(plan[0].mode, GpuMode::Dedicated);
    let alone = plan_from_names(&vec![name("game.exe")], GpuMode::Integrated, &d, &e, &e);
    assert_eq!(alone[0].mode, plan[2].mode);
}

fn staged_key(programs: &Vec<Vec<u16>>, plan: &[PlannedValue]) -> std::collections::BTreeMap<Vec<u16>, GpuMode> {
    let mut key = std::collections::BTreeMap::new();
    for v in plan {
        key.insert(programs[v.program].clone(), v.mode);
    }
    key
}

#[test]
fn staged_key_depends_only_on_the_set_of_programs() {
    let d = set_of(&["game.exe"]);
    let e = FxHashSet::default();
    let x = set_of(&["tool.exe"]);
    let one = vec![wide("C:/g/Game.exe"), wide("C:/t/tool.exe"), wide("C:/o/other.exe"), wide("C:/g/Game.exe")];
    let two = vec![wide("C:/o/other.exe"), wide("C:/g/Game.exe"), wide("C:/t/tool.exe")];
    let plan1 = plan_registry_values(&one, GpuMode::Integrated, &d, &e, &x);
    let plan2 = plan_registry_values(&two, GpuMode::Integrated, &d, &e, &x);
    let key1 = staged_key(&one, &plan1);
    assert_eq!(key1, staged_key(&two, &plan2));
    assert_eq!(key1.len(), 2);
    assert_eq!(key1[&wide("C:/g/Game.exe")], GpuMode::Dedicated);
    assert_eq!(key1[&wide("C:/o/other.exe")], GpuMode::Integrated);
}
