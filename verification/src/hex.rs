//! Lower-case hexadecimal rendering of byte strings, and lookup of
//! credentials by a prefix of their hexadecimal ID.

use vstd::prelude::*;
use crate::text::push_char;

verus! {

/// The lower-case hexadecimal digit for `n` (`n < 16`).
pub open spec fn hex_digit(n: u8) -> char {
    if n < 10 {
        (48 + n) as char
    } else {
        (87 + n) as char
    }
}

/// Two lower-case hexadecimal digits per byte, most significant first.
pub open spec fn hex_lower(b: Seq<u8>) -> Seq<char>
    decreases b.len(),
{
    if b.len() == 0 {
        Seq::empty()
    } else {
        hex_lower(b.drop_last()).push(hex_digit(b.last() / 16)).push(hex_digit(b.last() % 16))
    }
}

/// Whether `c` is a lower-case hexadecimal digit.
pub open spec fn is_lower_hex_char(c: char) -> bool {
    (48 <= c as u32 <= 57) || (97 <= c as u32 <= 102)
}

/// The value of the lower-case hexadecimal digit `c`.
pub open spec fn lower_hex_value(c: char) -> int {
    if c as u32 <= 57 { c as u32 - 48 } else { c as u32 - 87 }
}

/// The text reads `b` in lower-case hexadecimal: two digits per byte, the
/// byte being sixteen times the first digit plus the second.
pub open spec fn reads_as_hex(text: Seq<char>, b: Seq<u8>) -> bool {
    &&& text.len() == 2 * b.len()
    &&& forall|i: int| 0 <= i < b.len() ==> {
        &&& is_lower_hex_char(#[trigger] text[2 * i])
        &&& is_lower_hex_char(text[2 * i + 1])
        &&& 16 * lower_hex_value(text[2 * i]) + lower_hex_value(text[2 * i + 1]) == b[i]
    }
}

/// Law: the rendering is exactly two lower-case hexadecimal digits per
/// byte, in order, that read back as the byte.
pub proof fn lemma_hex_lower_reads_back(b: Seq<u8>)
    ensures
        reads_as_hex(hex_lower(b), b),
    decreases b.len(),
{
    if b.len() > 0 {
        let p = b.drop_last();
        lemma_hex_lower_reads_back(p);
        let h = hex_lower(b);
        let hp = hex_lower(p);
        let x = b.last();
        assert(h == hp.push(hex_digit(x / 16)).push(hex_digit(x % 16)));
        assert forall|i: int| 0 <= i < b.len() implies {
            &&& is_lower_hex_char(#[trigger] h[2 * i])
            &&& is_lower_hex_char(h[2 * i + 1])
            &&& 16 * lower_hex_value(h[2 * i]) + lower_hex_value(h[2 * i + 1]) == b[i]
        } by {
            if i < p.len() {
                assert(h[2 * i] == hp[2 * i]);
                assert(h[2 * i + 1] == hp[2 * i + 1]);
                assert(b[i] == p[i]);
            } else {
                assert(h[2 * i] == hex_digit(x / 16));
                assert(h[2 * i + 1] == hex_digit(x % 16));
                assert(b[i] == x);
            }
        }
    }
}

fn digit_char(n: u8) -> (c: char)
    requires
        n < 16,
    ensures
        c == hex_digit(n),
{
    if n < 10 {
        if n == 0 { '0' } else if n == 1 { '1' } else if n == 2 { '2' } else if n == 3 { '3' }
        else if n == 4 { '4' } else if n == 5 { '5' } else if n == 6 { '6' } else if n == 7 { '7' }
        else if n == 8 { '8' } else { '9' }
    } else {
        if n == 10 { 'a' } else if n == 11 { 'b' } else if n == 12 { 'c' } else if n == 13 { 'd' }
        else if n == 14 { 'e' } else { 'f' }
    }
}

/// Appends the lower-case hexadecimal rendering of `id` to `s`.
fn push_hex(s: &mut String, id: &[u8])
    ensures
        final(s)@ == old(s)@ + hex_lower(id@),
{
    let mut i: usize = 0;
    while i < id.len()
        invariant
            i <= id.len(),
            s@ == old(s)@ + hex_lower(id@.take(i as int)),
        decreases id.len() - i,
    {
        let b = id[i];
        push_char(s, digit_char(b / 16));
        push_char(s, digit_char(b % 16));
        proof {
            assert(id@.take(i + 1).drop_last() =~= id@.take(i as int));
            assert(id@.take(i + 1).last() == b);
        }
        i = i + 1;
        assert(s@ =~= old(s)@ + hex_lower(id@.take(i as int)));
    }
    assert(id@.take(id.len() as int) =~= id@);
}

/// Lower-case hexadecimal rendering of a byte string (two digits per byte).
pub fn hex_id(id: &[u8]) -> (s: String)
    ensures
        s@ == hex_lower(id@),
        reads_as_hex(s@, id@),
{
    proof {
        lemma_hex_lower_reads_back(id@);
    }
    let mut s = String::new();
    push_hex(&mut s, id);
    assert(s@ =~= hex_lower(id@));
    s
}

/// The characters "AAGUID:".
pub open spec fn aaguid_label() -> Seq<char> {
    seq!['A', 'A', 'G', 'U', 'I', 'D', ':']
}

/// The organizational-unit name of the device attestation certificate:
/// "AAGUID:" followed by the authenticator's AAGUID in lower-case hex.
pub fn aaguid_unit_name(aaguid: &[u8; 16]) -> (s: String)
    ensures
        s@ == aaguid_label() + hex_lower(aaguid@),
{
    let mut s = String::new();
    push_char(&mut s, 'A');
    push_char(&mut s, 'A');
    push_char(&mut s, 'G');
    push_char(&mut s, 'U');
    push_char(&mut s, 'I');
    push_char(&mut s, 'D');
    push_char(&mut s, ':');
    assert(s@ =~= aaguid_label());
    push_hex(&mut s, aaguid);
    s
}

/// What `str::to_lowercase` yields for a string with characters `s`
/// (Unicode lower-case mapping).
pub uninterp spec fn unicode_lowercase(s: Seq<char>) -> Seq<char>;

/// Calls `str::to_lowercase` on `s`. The result is stated only through the
/// name `unicode_lowercase` applied to the characters of `s`.
#[verifier::external_body]
fn to_lowercase(s: &str) -> (r: String)
    ensures
        r@ == unicode_lowercase(s@),
{
    s.to_lowercase()
}

/// Whether `hex` starts with `prefix`.
pub open spec fn starts_with(hex: Seq<char>, prefix: Seq<char>) -> bool {
    prefix.len() <= hex.len() && hex.take(prefix.len() as int) == prefix
}

/// Whether the hexadecimal ID of `id` starts with `prefix`.
pub fn id_starts_with(id: &[u8], prefix: &str) -> (r: bool)
    ensures
        r == starts_with(hex_lower(id@), prefix@),
{
    let hex = hex_id(id);
    let n = prefix.unicode_len();
    let m = hex.as_str().unicode_len();
    if n > m {
        return false;
    }
    let mut i: usize = 0;
    while i < n
        invariant
            i <= n,
            n == prefix@.len(),
            m == hex@.len(),
            n <= m,
            hex@ == hex_lower(id@),
            forall|j: int| 0 <= j < i ==> prefix@[j] == #[trigger] hex@[j],
        decreases n - i,
    {
        let p = prefix.get_char(i);
        let h = hex.as_str().get_char(i);
        if p != h {
            assert(hex@.take(n as int)[i as int] != prefix@[i as int]);
            return false;
        }
        i = i + 1;
    }
    assert(hex@.take(n as int) =~= prefix@);
    true
}

/// Whether `prefix`, lower-cased, starts the hexadecimal ID of `id`.
pub open spec fn matches_prefix(id: Seq<u8>, prefix: Seq<char>) -> bool {
    starts_with(hex_lower(id), unicode_lowercase(prefix))
}

/// Why a credential could not be picked by an ID prefix.
#[derive(Debug, PartialEq, Eq)]
pub enum PrefixError {
    /// No credential ID starts with the prefix.
    NoMatch,
    /// Several do: the positions of all of them.
    Ambiguous(Vec<usize>),
}

/// Picks the one credential whose hexadecimal ID starts with `prefix`
/// lower-cased: its position in `ids`, or why there is none.
pub fn find_by_prefix(ids: &Vec<Vec<u8>>, prefix: &str) -> (r: Result<usize, PrefixError>)
    ensures
        match r {
            Ok(k) => k < ids.len() && matches_prefix(ids@[k as int]@, prefix@)
                && forall|j: int|
                0 <= j < ids.len() && j != k ==> !matches_prefix(#[trigger] ids@[j]@, prefix@),
            Err(PrefixError::NoMatch) => forall|j: int|
                0 <= j < ids.len() ==> !matches_prefix(#[trigger] ids@[j]@, prefix@),
            Err(PrefixError::Ambiguous(all)) => all.len() >= 2 && (forall|a: int, b: int|
                0 <= a < b < all.len() ==> all@[a] < all@[b]) && (forall|j: int|
                0 <= j < ids.len() ==> (matches_prefix(#[trigger] ids@[j]@, prefix@)
                <==> all@.contains(j as usize))),
        },
{
    let lower = to_lowercase(prefix);
    let mut found: Vec<usize> = Vec::new();
    let mut i: usize = 0;
    while i < ids.len()
        invariant
            i <= ids.len(),
            lower@ == unicode_lowercase(prefix@),
            forall|a: int, b: int| 0 <= a < b < found.len() ==> found@[a] < found@[b],
            forall|a: int| 0 <= a < found.len() ==> found@[a] < i,
            forall|j: int|
                0 <= j < i ==> (matches_prefix(#[trigger] ids@[j]@, prefix@)
                    <==> found@.contains(j as usize)),
        decreases ids.len() - i,
    {
        let ghost before = found@;
        if id_starts_with(ids[i].as_slice(), lower.as_str()) {
            found.push(i);
        }
        proof {
            assert forall|j: int|
                0 <= j < i + 1 implies (matches_prefix(#[trigger] ids@[j]@, prefix@)
                <==> found@.contains(j as usize)) by {
                if j < i {
                    if before.contains(j as usize) {
                        let a = choose|a: int| 0 <= a < before.len() && before[a] == j as usize;
                        assert(found@[a] == j as usize);
                    }
                    if found@.contains(j as usize) {
                        let a = choose|a: int| 0 <= a < found.len() && found@[a] == j as usize;
                        if a < before.len() {
                            assert(before[a] == j as usize);
                        }
                    }
                } else {
                    if found@.contains(j as usize) {
                        let a = choose|a: int| 0 <= a < found.len() && found@[a] == j as usize;
                        assert(a == found.len() - 1);
                    }
                    if found.len() > before.len() {
                        assert(found@[found.len() - 1] == i);
                    }
                }
            }
        }
        i = i + 1;
    }
    if found.len() == 0 {
        proof {
            assert forall|j: int| 0 <= j < ids.len() implies !matches_prefix(
                #[trigger] ids@[j]@,
                prefix@,
            ) by {
                assert(!found@.contains(j as usize));
            }
        }
        Err(PrefixError::NoMatch)
    } else if found.len() == 1 {
        let k = found[0];
        proof {
            assert(found@.contains(k));
            assert forall|j: int| 0 <= j < ids.len() && j != k implies !matches_prefix(
                #[trigger] ids@[j]@,
                prefix@,
            ) by {
                if found@.contains(j as usize) {
                    let a = choose|a: int| 0 <= a < found.len() && found@[a] == j as usize;
                }
            }
        }
        Ok(k)
    } else {
        Err(PrefixError::Ambiguous(found))
    }
}

} // verus!
