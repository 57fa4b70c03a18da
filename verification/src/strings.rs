use vstd::prelude::*;
use vstd::string::*;

verus! {

broadcast use vstd::string::group_string_axioms;

// ---------------------------------------------------------------------------
// Characters of a string
// ---------------------------------------------------------------------------

/// The characters of `s`, in order.
pub fn chars_of(s: &str) -> (chars: Vec<char>)
    ensures
        chars@ == s@,
{
    let mut chars: Vec<char> = Vec::new();
    for c in it: s.chars()
        invariant
            chars@ == it.seq().take(it.index()),
    {
        chars.push(c);
    }
    chars
}

/// Whether two strings hold the same characters.
pub fn same_text(a: &str, b: &str) -> (r: bool)
    ensures
        r == (a@ == b@),
{
    let x = chars_of(a);
    let y = chars_of(b);
    if x.len() != y.len() {
        return false;
    }
    let mut i: usize = 0;
    while i < x.len()
        invariant
            x@ == a@,
            y@ == b@,
            x.len() == y.len(),
            i <= x.len(),
            forall|k: int| 0 <= k < i ==> x@[k] == y@[k],
        decreases x.len() - i,
    {
        if x[i] != y[i] {
            return false;
        }
        i = i + 1;
    }
    assert(x@ =~= y@);
    true
}

// ---------------------------------------------------------------------------
// White space and trimming
// ---------------------------------------------------------------------------

/// The characters with the Unicode `White_Space` property.
pub open spec fn white_space(c: char) -> bool {
    ||| ('\t' <= c && c <= '\r')
    ||| c == ' '
    ||| c == '\u{85}'
    ||| c == '\u{a0}'
    ||| c == '\u{1680}'
    ||| ('\u{2000}' <= c && c <= '\u{200a}')
    ||| c == '\u{2028}'
    ||| c == '\u{2029}'
    ||| c == '\u{202f}'
    ||| c == '\u{205f}'
    ||| c == '\u{3000}'
}

/// Whether `c` has the Unicode `White_Space` property, as `char::is_whitespace` tells.
pub fn is_white_space(c: char) -> (r: bool)
    ensures
        r == white_space(c),
{
    ('\t' <= c && c <= '\r') || c == ' ' || c == '\u{85}' || c == '\u{a0}' || c == '\u{1680}'
        || ('\u{2000}' <= c && c <= '\u{200a}') || c == '\u{2028}' || c == '\u{2029}'
        || c == '\u{202f}' || c == '\u{205f}' || c == '\u{3000}'
}

/// `s` without its leading white space.
pub open spec fn skip_white(s: Seq<char>) -> Seq<char>
    decreases s.len(),
{
    if s.len() > 0 && white_space(s[0]) {
        skip_white(s.drop_first())
    } else {
        s
    }
}

/// `s` without its trailing white space.
pub open spec fn drop_white_end(s: Seq<char>) -> Seq<char>
    decreases s.len(),
{
    if s.len() > 0 && white_space(s.last()) {
        drop_white_end(s.drop_last())
    } else {
        s
    }
}

/// `s` without leading and trailing white space, as `str::trim` gives it.
pub open spec fn trim(s: Seq<char>) -> Seq<char> {
    drop_white_end(skip_white(s))
}

/// The bounds of `chars[a..b]` once its leading and trailing white space is cut off.
pub fn trim_bounds(chars: &Vec<char>, a: usize, b: usize) -> (r: (usize, usize))
    requires
        a <= b <= chars.len(),
    ensures
        a <= r.0 <= r.1 <= b,
        chars@.subrange(r.0 as int, r.1 as int) == trim(chars@.subrange(a as int, b as int)),
{
    let mut p = a;
    while p < b && is_white_space(chars[p])
        invariant
            a <= p <= b <= chars.len(),
            skip_white(chars@.subrange(a as int, b as int)) == skip_white(
                chars@.subrange(p as int, b as int),
            ),
        decreases b - p,
    {
        assert(chars@.subrange(p as int, b as int).drop_first() =~= chars@.subrange(
            p + 1,
            b as int,
        ));
        p = p + 1;
    }
    let mut q = b;
    while q > p && is_white_space(chars[q - 1])
        invariant
            a <= p <= q <= b <= chars.len(),
            drop_white_end(chars@.subrange(p as int, b as int)) == drop_white_end(
                chars@.subrange(p as int, q as int),
            ),
        decreases q - p,
    {
        assert(chars@.subrange(p as int, q as int).drop_last() =~= chars@.subrange(
            p as int,
            q - 1,
        ));
        q = q - 1;
    }
    (p, q)
}

// ---------------------------------------------------------------------------
// Lower case
// ---------------------------------------------------------------------------

/// What `str::to_lowercase` gives for a string (full Unicode lower-casing).
pub uninterp spec fn lowercase(s: Seq<char>) -> Seq<char>;

/// `str::to_lowercase`; its result is named by `lowercase`.
#[verifier::external_body]
pub(crate) fn to_lowercase(s: &str) -> (r: String)
    ensures
        r@ == lowercase(s@),
{
    s.to_lowercase()
}

// ---------------------------------------------------------------------------
// UTF-16
// ---------------------------------------------------------------------------

/// Whether a code unit is a UTF-16 surrogate.
pub open spec fn is_surrogate(u: u16) -> bool {
    0xD800 <= u && u <= 0xDFFF
}

/// UTF-16 decoding where every unit that is not part of a valid sequence
/// becomes U+FFFD, as `String::from_utf16_lossy` does.
pub open spec fn utf16_decode(u: Seq<u16>) -> Seq<char>
    decreases u.len(),
{
    if u.len() == 0 {
        seq![]
    } else if !is_surrogate(u[0]) {
        seq![u[0] as char] + utf16_decode(u.drop_first())
    } else if u[0] <= 0xDBFF && u.len() >= 2 && 0xDC00 <= u[1] && u[1] <= 0xDFFF {
        seq![((u[0] - 0xD800) * 0x400 + (u[1] - 0xDC00) + 0x10000) as char] + utf16_decode(
            u.subrange(2, u.len() as int),
        )
    } else {
        seq!['\u{fffd}'] + utf16_decode(u.drop_first())
    }
}

/// `String::from_utf16_lossy`: decodes UTF-16 and puts U+FFFD in place of
/// every unpaired surrogate.
#[verifier::external_body]
pub(crate) fn decode_utf16_lossy(units: &[u16]) -> (r: String)
    ensures
        r@ == utf16_decode(units@),
{
    String::from_utf16_lossy(units)
}

/// The UTF-16 code units of one character.
pub open spec fn utf16_units_of_char(c: char) -> Seq<u16> {
    let v = c as int;
    if v < 0x10000 {
        seq![v as u16]
    } else {
        seq![(0xD800 + (v - 0x10000) / 0x400) as u16, (0xDC00 + (v - 0x10000) % 0x400) as u16]
    }
}

/// The UTF-16 encoding of a string.
pub open spec fn utf16_encode(s: Seq<char>) -> Seq<u16>
    decreases s.len(),
{
    if s.len() == 0 {
        seq![]
    } else {
        utf16_units_of_char(s[0]) + utf16_encode(s.drop_first())
    }
}

/// Every character is a Unicode scalar value: at most U+10FFFF and never a surrogate.
proof fn lemma_char_range(c: char)
    ensures
        0 <= c as int <= 0x10FFFF,
        !(0xD800 <= c as int <= 0xDFFF),
        (c as int) as char == c,
        (c as u32) as int == c as int,
{
}

proof fn lemma_utf16_encode_push(s: Seq<char>, c: char)
    ensures
        utf16_encode(s.push(c)) == utf16_encode(s) + utf16_units_of_char(c),
    decreases s.len(),
{
    if s.len() == 0 {
        assert(s.push(c).drop_first() =~= Seq::<char>::empty());
        assert(utf16_encode(Seq::<char>::empty()) == Seq::<u16>::empty());
        assert(utf16_units_of_char(c) + Seq::<u16>::empty() =~= utf16_units_of_char(c));
    } else {
        assert(s.push(c).drop_first() =~= s.drop_first().push(c));
        lemma_utf16_encode_push(s.drop_first(), c);
        assert(utf16_units_of_char(s[0]) + (utf16_encode(s.drop_first()) + utf16_units_of_char(
            c,
        )) =~= utf16_units_of_char(s[0]) + utf16_encode(s.drop_first()) + utf16_units_of_char(
            c,
        ));
    }
}

/// The UTF-16 code units of `s`, as `str::encode_utf16` yields them.
pub fn encode_utf16(s: &str) -> (units: Vec<u16>)
    ensures
        units@ == utf16_encode(s@),
{
    let chars = chars_of(s);
    let mut units: Vec<u16> = Vec::new();
    let mut i: usize = 0;
    while i < chars.len()
        invariant
            chars@ == s@,
            i <= chars.len(),
            units@ == utf16_encode(chars@.take(i as int)),
        decreases chars.len() - i,
    {
        let c = chars[i];
        proof {
            lemma_char_range(c);
        }
        let v = c as u32;
        proof {
            lemma_utf16_encode_push(chars@.take(i as int), c);
            assert(chars@.take(i + 1) =~= chars@.take(i as int).push(c));
        }
        let ghost before = units@;
        if v < 0x10000 {
            units.push(v as u16);
            assert(units@ =~= before + utf16_units_of_char(c));
        } else {
            let w = v - 0x10000;
            assert(0xD800 + w / 0x400 < 0x10000);
            assert(0xDC00 + w % 0x400 < 0x10000);
            units.push((0xD800 + w / 0x400) as u16);
            units.push((0xDC00 + w % 0x400) as u16);
            assert(units@ =~= before + utf16_units_of_char(c));
        }
        i = i + 1;
    }
    assert(chars@.take(chars.len() as int) =~= chars@);
    units
}

/// Decoding undoes encoding: the UTF-16 encoding of any string decodes back to it.
pub proof fn law_utf16_roundtrip(s: Seq<char>)
    ensures
        utf16_decode(utf16_encode(s)) == s,
    decreases s.len(),
{
    if s.len() > 0 {
        let c = s[0];
        let rest = utf16_encode(s.drop_first());
        let e = utf16_encode(s);
        law_utf16_roundtrip(s.drop_first());
        let v = c as int;
        lemma_char_range(c);
        if v < 0x10000 {
            assert(e[0] == v as u16);
            assert(e.drop_first() =~= rest);
            assert((v as u16) as int == v);
            assert(!is_surrogate(e[0]));
            assert(e[0] as char == c);
        } else {
            let hi = (0xD800 + (v - 0x10000) / 0x400) as u16;
            let lo = (0xDC00 + (v - 0x10000) % 0x400) as u16;
            assert(v <= 0x10FFFF);
            assert(e[0] == hi && e[1] == lo);
            assert(e.subrange(2, e.len() as int) =~= rest);
            assert((hi - 0xD800) * 0x400 + (lo - 0xDC00) + 0x10000 == v);
            assert(((hi - 0xD800) * 0x400 + (lo - 0xDC00) + 0x10000) as char == c);
        }
        assert(s =~= seq![c] + s.drop_first());
    }
}

// ---------------------------------------------------------------------------
// File names of paths
// ---------------------------------------------------------------------------

/// Whether `n` occurs as a contiguous piece of `s`.
pub open spec fn is_infix(n: Seq<char>, s: Seq<char>) -> bool {
    exists|k: int| 0 <= k && k + n.len() <= s.len() && #[trigger] s.subrange(k, k + n.len()) == n
}

/// `.` and `..`, which never are the name of a file.
pub open spec fn is_dot_name(s: Seq<char>) -> bool {
    s == seq!['.'] || s == seq!['.', '.']
}

/// A path that is one bare name: not empty, no separator, no drive colon, not `.` or `..`.
pub open spec fn is_bare_name(s: Seq<char>) -> bool {
    &&& s.len() > 0
    &&& !is_dot_name(s)
    &&& forall|k: int| 0 <= k < s.len() ==> #[trigger] s[k] != '/' && s[k] != '\\' && s[k] != ':'
}

/// A character after which a path's final component may begin on some platform:
/// `/` everywhere, `\\` and a drive's `:` on Windows.
pub open spec fn is_path_break(c: char) -> bool {
    c == '/' || c == '\\' || c == ':'
}

/// The text of `s` after its last `/`, `\\` or `:` (all of `s` when it has none).
pub open spec fn text_after_last_break(s: Seq<char>) -> Seq<char>
    decreases s.len(),
{
    if s.len() == 0 {
        s
    } else if is_path_break(s.last()) {
        seq![]
    } else {
        text_after_last_break(s.drop_last()).push(s.last())
    }
}

/// Whether `s` begins with two separators (`/` or `\\`), as Windows UNC, device and
/// verbatim paths do.
pub open spec fn begins_with_two_separators(s: Seq<char>) -> bool {
    &&& s.len() >= 2
    &&& (s[0] == '/' || s[0] == '\\')
    &&& (s[1] == '/' || s[1] == '\\')
}

/// Whether `n` is the end of `s`.
pub open spec fn is_suffix(n: Seq<char>, s: Seq<char>) -> bool {
    n.len() <= s.len() && s.subrange(s.len() - n.len(), s.len() as int) == n
}

/// Whether the path `s` ends in the parent directory: it is `..` or ends in `/..`.
pub open spec fn ends_in_parent_dir(s: Seq<char>) -> bool {
    ||| s == seq!['.', '.']
    ||| s.len() >= 3 && s.subrange(s.len() - 3, s.len() as int) == seq!['/', '.', '.']
}

/// What holds of the file name that `Path::file_name` finds in `path`, on every platform:
/// - a bare name is its own file name;
/// - a file name found is a non-empty piece of the path that is neither `.` nor `..`;
/// - a path that does not begin with two separators, and whose text after its last `/`,
///   `\\` or `:` is neither empty nor `.` nor `..`, has a file name: the end of the path
///   that takes in at least that text and holds no `/` (so exactly the text after the
///   last `/` when no `\\` or `:` follows it);
/// - a path that does not begin with two separators and ends in the parent directory
///   (`..`) has none.
pub open spec fn file_name_admissible(path: Seq<char>, r: Option<Seq<char>>) -> bool {
    &&& is_bare_name(path) ==> r == Some(path)
    &&& r matches Some(n) ==> n.len() > 0 && !is_dot_name(n) && is_infix(n, path)
    &&& ({
        let t = text_after_last_break(path);
        !begins_with_two_separators(path) && t.len() > 0 && !is_dot_name(t) ==> (r matches Some(
            n,
        ) && is_suffix(n, path) && n.len() >= t.len() && forall|k: int|
            0 <= k < n.len() ==> #[trigger] n[k] != '/')
    })
    &&& !begins_with_two_separators(path) && ends_in_parent_dir(path) ==> r is None
}

/// The characters of an optional string.
pub open spec fn opt_chars(o: Option<String>) -> Option<Seq<char>> {
    match o {
        Some(s) => Some(s@),
        None => None,
    }
}

/// `Path::file_name` of the path `path`, as a string: the final component of the path,
/// none when the path ends in `..` or has no final name. Which characters separate
/// components depends on the platform (`\\` and drive prefixes only on Windows, and
/// not `/` after a Windows verbatim prefix), so the contract states what holds on every
/// platform (see `file_name_admissible`); for paths that begin with two separators it
/// does not say whether there is a file name.
#[verifier::external_body]
pub(crate) fn path_file_name(path: &str) -> (r: Option<String>)
    ensures
        file_name_admissible(path@, opt_chars(r)),
{
    match std::path::Path::new(path).file_name() {
        Some(name) => match name.to_str() {
            Some(s) => Some(s.to_string()),
            None => None,
        },
        None => None,
    }
}

} // verus!
