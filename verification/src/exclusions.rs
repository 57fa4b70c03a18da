use vstd::prelude::*;
use vstd::string::*;
use rustc_hash::FxHashSet;
use crate::exe_set::{exe_names, insert_exe_name, new_exe_set};
use crate::strings::{chars_of, lowercase, to_lowercase, trim, trim_bounds};

verus! {

/// `[a, b)` is a line of `s`: it starts at the beginning or after a newline, ends at the
/// end or at a newline, and holds no newline.
pub open spec fn is_line(s: Seq<char>, a: int, b: int) -> bool {
    &&& 0 <= a <= b <= s.len()
    &&& (a == 0 || s[a - 1] == '\n')
    &&& (b == s.len() || s[b] == '\n')
    &&& forall|k: int| a <= k < b ==> s[k] != '\n'
}

/// The name that one line of an exclusion list contributes: the trimmed line in lower
/// case, unless the trimmed line is empty or a comment (starts with `#`).
pub open spec fn exclusion_entry(line: Seq<char>) -> Option<Seq<char>> {
    let t = trim(line);
    if t.len() == 0 || t[0] == '#' {
        None
    } else {
        Some(lowercase(t))
    }
}

/// The names contributed by the lines of `s` that end before position `bound`.
pub open spec fn names_before(s: Seq<char>, bound: int) -> Set<Seq<char>> {
    Set::new(
        |n: Seq<char>|
            exists|a: int, b: int|
                #![trigger is_line(s, a, b)]
                is_line(s, a, b) && b < bound && exclusion_entry(s.subrange(a, b)) == Some(n),
    )
}

/// The names that an exclusion list with the text `s` holds: one for each line that is
/// neither blank nor a comment.
pub open spec fn exclusion_names(s: Seq<char>) -> Set<Seq<char>> {
    names_before(s, s.len() as int + 1)
}

/// A line is determined by where it ends.
proof fn lemma_line_from_end(s: Seq<char>, start: int, end: int, a: int, b: int)
    requires
        0 <= start <= end <= s.len(),
        start == 0 || s[start - 1] == '\n',
        forall|k: int| start <= k < end ==> s[k] != '\n',
        end == s.len() || s[end] == '\n',
        is_line(s, a, b),
        start <= b <= end,
    ensures
        a == start,
        b == end,
{
    if b < end {
        assert(s[b] != '\n');
    }
    if a < start {
        assert(s[start - 1] != '\n');
    }
    if a > start {
        assert(s[a - 1] != '\n');
    }
}

/// Adds the name that the line `[start, end)` of `content` contributes, if any.
fn add_line_entry(
    content: &str,
    chars: &Vec<char>,
    start: usize,
    end: usize,
    exclusions: &mut FxHashSet<String>,
)
    requires
        chars@ == content@,
        start <= end <= chars.len(),
        start == 0 || content@[start - 1] == '\n',
        end == chars.len() || content@[end as int] == '\n',
        forall|k: int| start <= k < end ==> content@[k] != '\n',
        exe_names(*old(exclusions)) == names_before(content@, start as int),
    ensures
        exe_names(*final(exclusions)) == names_before(content@, end + 1),
{
    let ghost s = content@;
    let (p, q) = trim_bounds(chars, start, end);
    let ghost line = s.subrange(start as int, end as int);
    let ghost old_names = exe_names(*exclusions);
    if p < q && chars[p] != '#' {
        let piece = content.substring_char(p, q);
        let name = to_lowercase(piece);
        insert_exe_name(exclusions, name);
    }
    assert(is_line(s, start as int, end as int));
    assert(exe_names(*exclusions) =~= names_before(s, end + 1)) by {
        assert forall|n: Seq<char>| names_before(s, end + 1).contains(n) implies exe_names(
            *exclusions,
        ).contains(n) by {
            let (a, b) = choose|a: int, b: int|
                is_line(s, a, b) && b < end + 1 && exclusion_entry(s.subrange(a, b)) == Some(n);
            if b >= start {
                lemma_line_from_end(s, start as int, end as int, a, b);
            }
        }
        assert forall|n: Seq<char>| exe_names(*exclusions).contains(n) implies names_before(
            s,
            end + 1,
        ).contains(n) by {
            if old_names.contains(n) {
                let (a, b) = choose|a: int, b: int|
                    is_line(s, a, b) && b < start && exclusion_entry(s.subrange(a, b)) == Some(n);
                assert(is_line(s, a, b));
            } else {
                assert(exclusion_entry(line) == Some(n));
                assert(is_line(s, start as int, end as int));
            }
        }
    }
}

/// The exclusion list that the text of an exclusion file holds: each line is trimmed of
/// white space; blank lines and lines that start with `#` are skipped; the others are
/// taken in lower case.
pub fn parse_exclusions(content: &str) -> (exclusions: FxHashSet<String>)
    ensures
        exe_names(exclusions) == exclusion_names(content@),
{
    let chars = chars_of(content);
    let len = chars.len();
    let mut exclusions = new_exe_set();
    let mut start: usize = 0;
    let mut i: usize = 0;
    let ghost s = content@;
    assert(exe_names(exclusions) =~= names_before(s, 0));
    while i < len
        invariant
            chars@ == s,
            s == content@,
            len == chars.len(),
            start <= i <= len,
            start == 0 || s[start - 1] == '\n',
            forall|k: int| start <= k < i ==> s[k] != '\n',
            exe_names(exclusions) == names_before(s, start as int),
        decreases len - i,
    {
        if chars[i] == '\n' {
            add_line_entry(content, &chars, start, i, &mut exclusions);
            start = i + 1;
        }
        i = i + 1;
    }
    add_line_entry(content, &chars, start, len, &mut exclusions);
    exclusions
}

/// Exclusions ignore case and surrounding white space: a line of the file that is not
/// blank or a comment excludes every file name whose lower-case form equals that of the
/// trimmed line.
pub proof fn law_line_excludes_any_case(content: Seq<char>, a: int, b: int, file_name: Seq<char>)
    requires
        is_line(content, a, b),
        trim(content.subrange(a, b)).len() > 0,
        trim(content.subrange(a, b))[0] != '#',
        lowercase(file_name) == lowercase(trim(content.subrange(a, b))),
    ensures
        exclusion_names(content).contains(lowercase(file_name)),
{
    assert(exclusion_entry(content.subrange(a, b)) == Some(lowercase(file_name)));
    assert(is_line(content, a, b) && b < content.len() + 1);
}

/// Blank and comment lines contribute nothing: every name of the list comes from a line
/// whose trimmed form is not empty and does not start with `#`, and is that form in lower case.
pub proof fn law_names_come_from_entries(content: Seq<char>, n: Seq<char>)
    requires
        exclusion_names(content).contains(n),
    ensures
        exists|a: int, b: int|
            #![trigger is_line(content, a, b)]
            is_line(content, a, b) && trim(content.subrange(a, b)).len() > 0 && trim(
                content.subrange(a, b),
            )[0] != '#' && n == lowercase(trim(content.subrange(a, b))),
{
    let (a, b) = choose|a: int, b: int|
        is_line(content, a, b) && b < content.len() + 1 && exclusion_entry(content.subrange(a, b))
            == Some(n);
    assert(is_line(content, a, b));
}

} // verus!
