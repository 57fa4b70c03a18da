use rustc_hash::FxHashSet;
use win_global_gpu::exclusions::parse_exclusions;
use win_global_gpu::programs::{
    file_names_of, get_all_programs, get_filename_from_hstring, is_excluded, is_name_listed,
    retain_unlisted,
};

fn wide(s: &str) -> Vec<u16> {
    s.encode_utf16().collect()
}

fn set_of(names: &[&str]) -> FxHashSet<String> {
    let mut s = FxHashSet::default();
    for n in names {
        s.insert(n.to_string());
    }
    s
}

#[test]
fn parse_skips_blank_and_comment_lines() {
    let set = parse_exclusions("# games to leave alone\n\n   \nSteam.exe\n  Discord.EXE  \n#notepad.exe\n");
    assert_eq!(set, set_of(&["steam.exe", "discord.exe"]));
}

#[test]
fn parse_handles_crlf_and_missing_final_newline() {
    let set = parse_exclusions("a.exe\r\n\tB.exe\r\nc.exe");
    assert_eq!(set, set_of(&["a.exe", "b.exe", "c.exe"]));
}

#[test]
fn parse_empty_text_is_empty() {
    assert!(parse_exclusions("").is_empty());
    assert!(parse_exclusions("\n\n# only a comment\n").is_empty());
}

#[test]
fn parse_keeps_inner_spaces_and_hash() {
    let set = parse_exclusions("  My Game #2.exe  \n");
    assert_eq!(set, set_of(&["my game #2.exe"]));
}

#[test]
fn parse_trims_unicode_white_space() {
    let set = parse_exclusions("\u{3000}Tool.exe\u{a0}\n");
    assert_eq!(set, set_of(&["tool.exe"]));
}

#[test]
fn parse_lowercases_beyond_ascii() {
    let set = parse_exclusions("ÉDITEUR.EXE\n");
    assert_eq!(set, set_of(&["éditeur.exe"]));
}

#[test]
fn file_name_of_path_is_lowercased() {
    assert_eq!(
        get_filename_from_hstring(&wide("C:/Program Files/Game/Game.EXE")),
        Some("game.exe".to_string())
    );
}

#[test]
fn file_name_of_bare_name() {
    assert_eq!(get_filename_from_hstring(&wide("Notepad.EXE")), Some("notepad.exe".to_string()));
}

#[test]
fn no_file_name_for_parent_dir_or_empty() {
    assert_eq!(get_filename_from_hstring(&wide("games/..")), None);
    assert_eq!(get_filename_from_hstring(&wide("")), None);
}

#[test]
fn lone_surrogate_is_replaced() {
    let mut units = wide("ab");
    units.insert(1, 0xD800);
    assert_eq!(get_filename_from_hstring(&units), Some("a\u{fffd}b".to_string()));
}

#[test]
fn excluded_by_file_name_in_any_case() {
    let excl = parse_exclusions("STEAM.exe\n");
    assert!(is_excluded(&wide("C:/Games/Steam/steam.EXE"), &excl));
    assert!(!is_excluded(&wide("C:/Games/Steam/steamwebhelper.exe"), &excl));
}

#[test]
fn path_without_file_name_is_never_excluded() {
    let excl = set_of(&["..", ""]);
    assert!(!is_excluded(&wide("C:/Games/.."), &excl));
}

#[test]
fn name_listed_checks_membership() {
    let set = set_of(&["a.exe"]);
    assert!(is_name_listed(&Some("a.exe".to_string()), &set));
    assert!(!is_name_listed(&Some("b.exe".to_string()), &set));
    assert!(!is_name_listed(&None, &set));
}

#[test]
fn file_names_of_each_path() {
    let paths = vec![wide("x/One.exe"), wide("two.EXE"), wide("")];
    assert_eq!(
        file_names_of(&paths),
        vec![Some("one.exe".to_string()), Some("two.exe".to_string()), None]
    );
}

#[test]
fn retain_unlisted_keeps_order() {
    let paths = vec![wide("a/1.exe"), wide("a/2.exe"), wide("a/3.exe")];
    let names = file_names_of(&paths);
    let kept = retain_unlisted(&paths, &names, &set_of(&["2.exe"]));
    assert_eq!(kept, vec![wide("a/1.exe"), wide("a/3.exe")]);
}

#[test]
fn all_programs_keep_store_apps_first_and_drop_excluded_exes() {
    let apps = vec![wide("Microsoft.WindowsCalculator_8wekyb3d8bbwe!App"), wide("steam.exe")];
    let exes = vec![wide("C:/Games/steam.exe"), wide("C:/Tools/Tool.exe"), wide("D:/x/Steam.EXE")];
    let excl = parse_exclusions("steam.exe\n");
    let list = get_all_programs(apps.clone(), exes, &excl);
    assert_eq!(
        list.programs,
        vec![apps[0].clone(), apps[1].clone(), wide("C:/Tools/Tool.exe")]
    );
    assert_eq!(list.store_app_count, 2);
    assert_eq!(list.exes_after_exclusions, 0);
    assert_eq!(list.excluded_count, 2);
}

#[test]
fn all_programs_without_exclusions() {
    let list = get_all_programs(vec![], vec![wide("a.exe"), wide("b.exe")], &FxHashSet::default());
    assert_eq!(list.programs, vec![wide("a.exe"), wide("b.exe")]);
    assert_eq!(list.store_app_count, 0);
    assert_eq!(list.exes_after_exclusions, 0);
    assert_eq!(list.excluded_count, 0);
}

#[test]
fn larger_exclusion_list_keeps_a_subsequence() {
    let paths = vec![wide("a/1.exe"), wide("a/2.exe"), wide("a/3.exe"), wide("a/4.exe")];
    let names = file_names_of(&paths);
    let fewer = retain_unlisted(&paths, &names, &set_of(&["2.exe"]));
    let more = retain_unlisted(&paths, &names, &set_of(&["2.exe", "3.exe"]));
    assert_eq!(fewer, vec![wide("a/1.exe"), wide("a/3.exe"), wide("a/4.exe")]);
    assert_eq!(more, vec![wide("a/1.exe"), wide("a/4.exe")]);
}
