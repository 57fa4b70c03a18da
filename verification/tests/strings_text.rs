use rustc_hash::FxHashSet;
use win_global_gpu::exclusions::parse_exclusions;
use win_global_gpu::programs::get_filename_from_hstring;
use win_global_gpu::strings::{chars_of, encode_utf16, is_white_space, same_text, trim_bounds};

#[test]
fn chars_of_splits_into_characters() {
    assert_eq!(chars_of("aé😀"), vec!['a', 'é', '😀']);
}

#[test]
fn same_text_compares_characters() {
    assert!(same_text("reset", "reset"));
    assert!(!same_text("reset", "Reset"));
    assert!(!same_text("reset", "rese"));
    assert!(same_text("", ""));
}

#[test]
fn white_space_is_the_unicode_list() {
    let spaces = "\t\n\u{b}\u{c}\r \u{85}\u{a0}\u{1680}\u{2000}\u{200a}\u{2028}\u{2029}\u{202f}\u{205f}\u{3000}";
    let text = format!("{spaces}a.exe{spaces}\n\u{200b}b.exe\n");
    let set = parse_exclusions(&text);
    let mut expected = FxHashSet::default();
    expected.insert("a.exe".to_string());
    expected.insert("\u{200b}b.exe".to_string());
    assert_eq!(set, expected);
}

#[test]
fn trim_bounds_cut_white_space() {
    let chars = chars_of("xx  a b \t yy");
    assert_eq!(trim_bounds(&chars, 2, 10), (4, 7));
    assert_eq!(trim_bounds(&chars, 2, 4), (4, 4));
    assert_eq!(trim_bounds(&chars, 0, 0), (0, 0));
}

#[test]
fn encode_utf16_of_ascii_and_astral() {
    assert_eq!(encode_utf16("Gp="), vec![0x47, 0x70, 0x3d]);
    assert_eq!(encode_utf16("😀"), vec![0xD83D, 0xDE00]);
    assert_eq!(encode_utf16(""), Vec::<u16>::new());
    assert_eq!(encode_utf16("é"), vec![0xE9]);
}

#[test]
fn decoding_undoes_encoding() {
    let units = encode_utf16("Édit😀.EXE");
    assert_eq!(get_filename_from_hstring(&units), Some("édit😀.exe".to_string()));
}

#[test]
fn decoding_replaces_unpaired_surrogates() {
    let units = [0x61u16, 0xDC00, 0x62, 0xD800];
    assert_eq!(get_filename_from_hstring(&units), Some("a\u{fffd}b\u{fffd}".to_string()));
}

#[test]
fn white_space_agrees_with_std() {
    for c in ['\t', '\n', '\r', ' ', '\u{85}', '\u{a0}', '\u{2009}', '\u{3000}', 'a', '\u{200b}', '\u{180e}', '\u{0}'] {
        assert_eq!(is_white_space(c), c.is_whitespace());
    }
}

#[test]
fn file_name_is_the_text_after_the_last_slash() {
    let units = encode_utf16("//server/share/dir/Tool.exe");
    assert_eq!(get_filename_from_hstring(&units), Some("tool.exe".to_string()));
    assert_eq!(get_filename_from_hstring(&encode_utf16("a/b/")), Some("b".to_string()));
    assert_eq!(get_filename_from_hstring(&encode_utf16("..")), None);
    assert_eq!(get_filename_from_hstring(&encode_utf16("/..")), None);
}
