//! Colours of the verification overlay, read from a colour-scheme file.
//!
//! The scheme file holds lines such as `primary = "#24BD5C",`. For a key,
//! the first line that, trimmed of white space, starts with the key and
//! holds a pair of double quotes gives the colour between the quotes; a
//! text that is not six hexadecimal digits (after any leading `#`) gives no
//! colour. Reading the file, and the default colours, are the caller's.

use vstd::prelude::*;
use crate::text::chars_of;

verus! {

/// A colour as its red, green and blue bytes.
#[derive(Clone, Copy, Debug, PartialEq, Eq, Structural)]
pub struct Rgb {
    pub r: u8,
    pub g: u8,
    pub b: u8,
}

/// The colours that a scheme file sets; `None` where it sets none, so that
/// the default colour applies.
#[derive(Clone, Copy, Debug, PartialEq, Eq, Structural)]
pub struct ThemeSpec {
    pub background: Option<Rgb>,
    pub foreground: Option<Rgb>,
    pub primary: Option<Rgb>,
    pub error: Option<Rgb>,
    pub surface: Option<Rgb>,
    pub dim: Option<Rgb>,
}

/// `char::is_whitespace`: the characters with the Unicode `White_Space`
/// property.
pub open spec fn is_white_space(c: char) -> bool {
    let u = c as u32;
    (9 <= u <= 13) || u == 32 || u == 0x85 || u == 0xA0 || u == 0x1680
        || (0x2000 <= u <= 0x200A) || u == 0x2028 || u == 0x2029 || u == 0x202F
        || u == 0x205F || u == 0x3000
}

/// The text without its leading white space.
pub open spec fn trim_start(s: Seq<char>) -> Seq<char>
    decreases s.len(),
{
    if s.len() > 0 && is_white_space(s[0]) {
        trim_start(s.drop_first())
    } else {
        s
    }
}

/// The text without its trailing white space.
pub open spec fn trim_end(s: Seq<char>) -> Seq<char>
    decreases s.len(),
{
    if s.len() > 0 && is_white_space(s.last()) {
        trim_end(s.drop_last())
    } else {
        s
    }
}

/// The text without leading and trailing white space (`str::trim`).
pub open spec fn trim(s: Seq<char>) -> Seq<char> {
    trim_end(trim_start(s))
}

/// Whether `t` starts with `p`.
pub open spec fn starts_with(t: Seq<char>, p: Seq<char>) -> bool {
    p.len() <= t.len() && t.subrange(0, p.len() as int) == p
}

/// The first index at or after `i` that holds `c`, or the length of `s`
/// when there is none.
pub open spec fn find_from(s: Seq<char>, c: char, i: int) -> int
    decreases s.len() - i,
{
    if i < 0 || i >= s.len() {
        s.len() as int
    } else if s[i] == c {
        i
    } else {
        find_from(s, c, i + 1)
    }
}

/// The text between the first two double quotes of `t`, if it has two.
pub open spec fn quoted(t: Seq<char>) -> Option<Seq<char>> {
    let p = find_from(t, '"', 0);
    if p >= t.len() {
        None
    } else {
        let q = find_from(t, '"', p + 1);
        if q >= t.len() {
            None
        } else {
            Some(t.subrange(p + 1, q))
        }
    }
}

/// The text without its leading `#` characters.
pub open spec fn strip_hashes(s: Seq<char>) -> Seq<char>
    decreases s.len(),
{
    if s.len() > 0 && s[0] == '#' {
        strip_hashes(s.drop_first())
    } else {
        s
    }
}

/// Whether `c` is a hexadecimal digit.
pub open spec fn is_hex_digit(c: char) -> bool {
    let u = c as u32;
    (48 <= u <= 57) || (97 <= u <= 102) || (65 <= u <= 70)
}

/// The value of the hexadecimal digit `c`.
pub open spec fn hex_value(c: char) -> int {
    let u = c as u32;
    if 48 <= u <= 57 {
        u - 48
    } else if 97 <= u <= 102 {
        u - 87
    } else {
        u - 55
    }
}

/// What `u8::from_str_radix` in base 16 gives for the two-character text
/// `a b`: two hexadecimal digits, or a `+` sign and one digit.
pub open spec fn hex_byte(a: char, b: char) -> Option<u8> {
    if is_hex_digit(a) && is_hex_digit(b) {
        Some((16 * hex_value(a) + hex_value(b)) as u8)
    } else if a == '+' && is_hex_digit(b) {
        Some(hex_value(b) as u8)
    } else {
        None
    }
}

/// The colour written as `#RRGGBB` (any number of leading `#`, or none).
pub open spec fn hex_color(s: Seq<char>) -> Option<Rgb> {
    let h = strip_hashes(s);
    if h.len() != 6 {
        None
    } else {
        match (hex_byte(h[0], h[1]), hex_byte(h[2], h[3]), hex_byte(h[4], h[5])) {
            (Some(r), Some(g), Some(b)) => Some(Rgb { r, g, b }),
            _ => None,
        }
    }
}

/// `find_from` stays within the text and lands on `c` when it finds one.
pub proof fn lemma_find_from_bounds(s: Seq<char>, c: char, i: int)
    requires
        0 <= i <= s.len(),
    ensures
        i <= find_from(s, c, i) <= s.len(),
        find_from(s, c, i) < s.len() ==> s[find_from(s, c, i)] == c,
    decreases s.len() - i,
{
    if i < s.len() && s[i] != c {
        lemma_find_from_bounds(s, c, i + 1);
    }
}

/// Whether the line `t` (already trimmed) is the one that sets `key`.
pub open spec fn sets_key(t: Seq<char>, key: Seq<char>) -> bool {
    starts_with(t, key) && quoted(t) is Some
}

/// The colour that the lines of `s` from index `i` on give for `key`: the
/// first line that, trimmed, starts with `key` and holds two double quotes
/// decides.
pub open spec fn entry_from(s: Seq<char>, key: Seq<char>, i: int) -> Option<Rgb>
    decreases s.len() - i,
{
    if i < 0 || i > s.len() {
        None
    } else {
        let end = find_from(s, '\n', i);
        let t = trim(s.subrange(i, end));
        if sets_key(t, key) {
            hex_color(quoted(t)->0)
        } else if end < s.len() {
            proof {
                lemma_find_from_bounds(s, '\n', i);
            }
            entry_from(s, key, end + 1)
        } else {
            None
        }
    }
}

/// The colour that the scheme text `s` gives for `key`.
pub open spec fn entry(s: Seq<char>, key: Seq<char>) -> Option<Rgb> {
    entry_from(s, key, 0)
}

/// The first of two options that is set.
pub open spec fn either(a: Option<Rgb>, b: Option<Rgb>) -> Option<Rgb> {
    match a {
        Some(x) => Some(x),
        None => b,
    }
}

/// The colours that the scheme text `s` sets: the foreground from
/// `onBackground`, else `text`; the dimmed colour from `subtext0`, else
/// `outline`.
pub open spec fn theme_of(s: Seq<char>) -> ThemeSpec {
    ThemeSpec {
        background: entry(s, "background ="@),
        foreground: either(entry(s, "onBackground ="@), entry(s, "text ="@)),
        primary: entry(s, "primary ="@),
        error: entry(s, "error ="@),
        surface: entry(s, "surface ="@),
        dim: either(entry(s, "subtext0 ="@), entry(s, "outline ="@)),
    }
}

fn white_space(c: char) -> (r: bool)
    ensures
        r == is_white_space(c),
{
    let u = c as u32;
    (9 <= u && u <= 13) || u == 32 || u == 0x85 || u == 0xA0 || u == 0x1680
        || (0x2000 <= u && u <= 0x200A) || u == 0x2028 || u == 0x2029 || u == 0x202F
        || u == 0x205F || u == 0x3000
}

/// The characters of `s` from `lo` up to `hi`.
fn copy_range(s: &Vec<char>, lo: usize, hi: usize) -> (r: Vec<char>)
    requires
        lo <= hi <= s@.len(),
    ensures
        r@ == s@.subrange(lo as int, hi as int),
{
    let mut r: Vec<char> = Vec::new();
    let mut i = lo;
    while i < hi
        invariant
            lo <= i <= hi <= s@.len(),
            r@ == s@.subrange(lo as int, i as int),
        decreases hi - i,
    {
        r.push(s[i]);
        assert(r@ =~= s@.subrange(lo as int, i + 1));
        i = i + 1;
    }
    r
}

/// `t` trimmed of white space at both ends.
fn trim_chars(t: &Vec<char>) -> (r: Vec<char>)
    ensures
        r@ == trim(t@),
{
    let n = t.len();
    let mut a: usize = 0;
    assert(t@.subrange(0, n as int) =~= t@);
    while a < n && white_space(t[a])
        invariant
            a <= n == t@.len(),
            trim_start(t@) == trim_start(t@.subrange(a as int, n as int)),
        decreases n - a,
    {
        assert(t@.subrange(a as int, n as int).drop_first() =~= t@.subrange(a + 1, n as int));
        a = a + 1;
    }
    let ghost rest = t@.subrange(a as int, n as int);
    assert(trim_start(rest) == rest);
    let mut b: usize = n;
    while b > a && white_space(t[b - 1])
        invariant
            a <= b <= n == t@.len(),
            rest == t@.subrange(a as int, n as int),
            trim_end(rest) == trim_end(t@.subrange(a as int, b as int)),
        decreases b,
    {
        assert(t@.subrange(a as int, b as int).drop_last() =~= t@.subrange(a as int, b - 1));
        b = b - 1;
    }
    copy_range(t, a, b)
}

/// Whether `t` starts with `p`.
fn has_prefix(t: &Vec<char>, p: &Vec<char>) -> (r: bool)
    ensures
        r == starts_with(t@, p@),
{
    if p.len() > t.len() {
        return false;
    }
    let mut k: usize = 0;
    while k < p.len()
        invariant
            k <= p@.len() <= t@.len(),
            t@.subrange(0, k as int) == p@.subrange(0, k as int),
        decreases p@.len() - k,
    {
        if t[k] != p[k] {
            assert(t@.subrange(0, p@.len() as int)[k as int] != p@[k as int]);
            return false;
        }
        assert(t@.subrange(0, k + 1) =~= p@.subrange(0, k + 1));
        k = k + 1;
    }
    assert(p@.subrange(0, p@.len() as int) =~= p@);
    true
}

/// The first index at or after `i` that holds `c`, or the length of `s`.
fn find_char(s: &Vec<char>, c: char, i: usize) -> (r: usize)
    requires
        i <= s@.len(),
    ensures
        r == find_from(s@, c, i as int),
        i <= r <= s@.len(),
{
    let mut k = i;
    while k < s.len() && s[k] != c
        invariant
            i <= k <= s@.len(),
            find_from(s@, c, i as int) == find_from(s@, c, k as int),
        decreases s@.len() - k,
    {
        k = k + 1;
    }
    k
}

/// The text between the first two double quotes of `t`.
fn quoted_chars(t: &Vec<char>) -> (r: Option<Vec<char>>)
    ensures
        match r {
            Some(q) => quoted(t@) == Some(q@),
            None => quoted(t@) is None,
        },
{
    let p = find_char(t, '"', 0);
    if p >= t.len() {
        return None;
    }
    let q = find_char(t, '"', p + 1);
    if q >= t.len() {
        return None;
    }
    Some(copy_range(t, p + 1, q))
}

fn hex_digit_value(c: char) -> (r: Option<u8>)
    ensures
        r == (if is_hex_digit(c) { Some(hex_value(c) as u8) } else { None }),
{
    let u = c as u32;
    if 48 <= u && u <= 57 {
        Some((u - 48) as u8)
    } else if 97 <= u && u <= 102 {
        Some((u - 87) as u8)
    } else if 65 <= u && u <= 70 {
        Some((u - 55) as u8)
    } else {
        None
    }
}

fn parse_hex_byte(a: char, b: char) -> (r: Option<u8>)
    ensures
        r == hex_byte(a, b),
{
    match hex_digit_value(b) {
        None => None,
        Some(vb) => {
            if a == '+' {
                Some(vb)
            } else {
                match hex_digit_value(a) {
                    Some(va) => Some(16 * va + vb),
                    None => None,
                }
            }
        },
    }
}

fn hex_color_of(s: &Vec<char>) -> (r: Option<Rgb>)
    ensures
        r == hex_color(s@),
{
    let n = s.len();
    let mut k: usize = 0;
    assert(s@.subrange(0, n as int) =~= s@);
    while k < n && s[k] == '#'
        invariant
            k <= n == s@.len(),
            strip_hashes(s@) == strip_hashes(s@.subrange(k as int, n as int)),
        decreases n - k,
    {
        assert(s@.subrange(k as int, n as int).drop_first() =~= s@.subrange(k + 1, n as int));
        k = k + 1;
    }
    let ghost h = s@.subrange(k as int, n as int);
    assert(strip_hashes(h) == h);
    if n - k != 6 {
        return None;
    }
    let r = parse_hex_byte(s[k], s[k + 1]);
    let g = parse_hex_byte(s[k + 2], s[k + 3]);
    let b = parse_hex_byte(s[k + 4], s[k + 5]);
    assert(h[0] == s@[k as int] && h[1] == s@[k + 1] && h[2] == s@[k + 2]);
    assert(h[3] == s@[k + 3] && h[4] == s@[k + 4] && h[5] == s@[k + 5]);
    match (r, g, b) {
        (Some(r), Some(g), Some(b)) => Some(Rgb { r, g, b }),
        _ => None,
    }
}

/// The colour written as `#RRGGBB`: six hexadecimal digits after any
/// number of leading `#` (a pair may also be a `+` sign and one digit, as
/// `u8::from_str_radix` reads it); `None` for any other text.
pub fn hex_to_rgb(hex: &str) -> (r: Option<Rgb>)
    ensures
        r == hex_color(hex@),
        digits_color(hex@) is Some ==> r == digits_color(hex@),
        hex@.len() == 7 && hex@[0] == '#' && digits_color(hex@.drop_first()) is Some ==> r
            == digits_color(hex@.drop_first()),
{
    proof {
        lemma_plain_digits(hex@);
        if hex@.len() == 7 && hex@[0] == '#' {
            lemma_plain_digits(hex@.drop_first());
        }
    }
    let s = chars_of(hex);
    hex_color_of(&s)
}

/// Six hexadecimal digits read as red, green and blue bytes, two digits
/// each, most significant first.
pub open spec fn digits_color(s: Seq<char>) -> Option<Rgb> {
    if s.len() == 6 && forall|i: int| 0 <= i < 6 ==> is_hex_digit(#[trigger] s[i]) {
        Some(Rgb {
            r: (16 * hex_value(s[0]) + hex_value(s[1])) as u8,
            g: (16 * hex_value(s[2]) + hex_value(s[3])) as u8,
            b: (16 * hex_value(s[4]) + hex_value(s[5])) as u8,
        })
    } else {
        None
    }
}

/// Law: six hexadecimal digits, with or without one leading `#`, are read
/// as red, green and blue in that order.
pub proof fn lemma_plain_digits(s: Seq<char>)
    ensures
        digits_color(s) is Some ==> hex_color(s) == digits_color(s),
        s.len() == 7 && s[0] == '#' && digits_color(s.drop_first()) is Some ==> hex_color(s)
            == digits_color(s.drop_first()),
{
    if digits_color(s) is Some {
        assert(is_hex_digit(s[0]) && is_hex_digit(s[1]) && is_hex_digit(s[2]));
        assert(is_hex_digit(s[3]) && is_hex_digit(s[4]) && is_hex_digit(s[5]));
        assert(s[0] != '#');
        assert(strip_hashes(s) == s);
    }
    if s.len() == 7 && s[0] == '#' && digits_color(s.drop_first()) is Some {
        let t = s.drop_first();
        assert(is_hex_digit(t[0]) && is_hex_digit(t[1]) && is_hex_digit(t[2]));
        assert(is_hex_digit(t[3]) && is_hex_digit(t[4]) && is_hex_digit(t[5]));
        assert(t[0] != '#');
        assert(strip_hashes(t) == t);
        assert(strip_hashes(s) == strip_hashes(t));
    }
}

/// The colour that the scheme text `s` gives for `key`.
fn scheme_entry(s: &Vec<char>, key: &Vec<char>) -> (r: Option<Rgb>)
    ensures
        r == entry(s@, key@),
{
    let mut i: usize = 0;
    loop
        invariant
            i <= s@.len(),
            entry(s@, key@) == entry_from(s@, key@, i as int),
        decreases s@.len() - i,
    {
        let end = find_char(s, '\n', i);
        let line = copy_range(s, i, end);
        let t = trim_chars(&line);
        if has_prefix(&t, key) {
            match quoted_chars(&t) {
                Some(q) => {
                    return hex_color_of(&q);
                },
                None => {},
            }
        }
        if end >= s.len() {
            return None;
        }
        i = end + 1;
    }
}

/// The colours that the colour-scheme text `content` sets (see the module
/// documentation); the foreground falls back from `onBackground` to `text`,
/// the dimmed colour from `subtext0` to `outline`.
pub fn parse_theme(content: &str) -> (t: ThemeSpec)
    ensures
        t == theme_of(content@),
{
    let s = chars_of(content);
    let background = scheme_entry(&s, &chars_of("background ="));
    let foreground = match scheme_entry(&s, &chars_of("onBackground =")) {
        Some(c) => Some(c),
        None => scheme_entry(&s, &chars_of("text =")),
    };
    let primary = scheme_entry(&s, &chars_of("primary ="));
    let error = scheme_entry(&s, &chars_of("error ="));
    let surface = scheme_entry(&s, &chars_of("surface ="));
    let dim = match scheme_entry(&s, &chars_of("subtext0 =")) {
        Some(c) => Some(c),
        None => scheme_entry(&s, &chars_of("outline =")),
    };
    ThemeSpec { background, foreground, primary, error, surface, dim }
}

} // verus!
