//! String building and searching helpers.

use vstd::prelude::*;

verus! {

/// Calls `String::push`, which appends one character at the end.
/// Trusted: the contract states what the standard library documents for it.
#[verifier::external_body]
pub(crate) fn push_char(s: &mut String, c: char)
    ensures
        final(s)@ == old(s)@.push(c),
{
    s.push(c);
}

/// Appends every character of `chars`, in order.
pub fn push_chars(s: &mut String, chars: &Vec<char>)
    ensures
        final(s)@ == old(s)@ + chars@,
{
    let ghost start = s@;
    let mut i: usize = 0;
    while i < chars.len()
        invariant
            i <= chars@.len(),
            s@ == start + chars@.subrange(0, i as int),
        decreases chars@.len() - i,
    {
        push_char(s, chars[i]);
        i = i + 1;
        assert(chars@.subrange(0, i as int) == chars@.subrange(0, i - 1).push(chars@[i - 1]));
    }
    assert(chars@.subrange(0, chars@.len() as int) == chars@);
}

/// A leading (high) surrogate code unit.
pub open spec fn is_high_surrogate(u: u16) -> bool {
    0xD800 <= u <= 0xDBFF
}

/// A trailing (low) surrogate code unit.
pub open spec fn is_low_surrogate(u: u16) -> bool {
    0xDC00 <= u <= 0xDFFF
}

/// UTF-16 decoding that puts U+FFFD in place of each unpaired surrogate: a
/// unit that is no surrogate is its own character, a high surrogate followed
/// by a low one is one character, and any other surrogate is U+FFFD.
pub open spec fn utf16_lossy(units: Seq<u16>) -> Seq<char>
    decreases units.len(),
{
    if units.len() == 0 {
        Seq::empty()
    } else if !is_high_surrogate(units[0]) && !is_low_surrogate(units[0]) {
        seq![units[0] as char] + utf16_lossy(units.drop_first())
    } else if is_high_surrogate(units[0]) && units.len() >= 2 && is_low_surrogate(units[1]) {
        seq![(0x10000 + (units[0] - 0xD800) * 0x400 + (units[1] - 0xDC00)) as char]
            + utf16_lossy(units.subrange(2, units.len() as int))
    } else {
        seq!['\u{FFFD}'] + utf16_lossy(units.drop_first())
    }
}

/// Calls `String::from_utf16_lossy`, which decodes UTF-16 and puts the
/// replacement character U+FFFD in place of each unpaired surrogate, as the
/// standard library documents it (decoding by `char::decode_utf16`).
#[verifier::external_body]
pub(crate) fn string_from_utf16_lossy(units: &[u16]) -> (s: String)
    ensures
        s@ == utf16_lossy(units@),
{
    String::from_utf16_lossy(units)
}

/// The number of code units before the first NUL, or all of them.
pub open spec fn nul_terminated_len(units: Seq<u16>) -> nat
    decreases units.len(),
{
    if units.len() == 0 || units[0] == 0 {
        0
    } else {
        1 + nul_terminated_len(units.drop_first())
    }
}

/// The text of a NUL-terminated UTF-16 buffer; a buffer with no NUL is read whole.
pub open spec fn nul_terminated_text(units: Seq<u16>) -> Seq<char> {
    utf16_lossy(units.take(nul_terminated_len(units) as int))
}

/// Position of the first NUL code unit, or the length when there is none.
pub fn nul_position(units: &[u16]) -> (n: usize)
    ensures
        n == nul_terminated_len(units@),
        n <= units@.len(),
        forall|i: int| 0 <= i < n ==> units@[i] != 0,
        n < units@.len() ==> units@[n as int] == 0,
{
    let mut i: usize = 0;
    proof {
        assert(units@.skip(0) =~= units@);
    }
    while i < units.len() && units[i] != 0
        invariant
            i <= units@.len(),
            forall|j: int| 0 <= j < i ==> units@[j] != 0,
            nul_terminated_len(units@) == i + nul_terminated_len(units@.skip(i as int)),
        decreases units@.len() - i,
    {
        proof {
            assert(units@.skip(i as int).drop_first() =~= units@.skip(i + 1));
        }
        i = i + 1;
    }
    proof {
        if i < units@.len() {
            assert(units@.skip(i as int)[0] == units@[i as int]);
        } else {
            assert(units@.skip(i as int).len() == 0);
        }
    }
    i
}

/// Decodes a NUL-terminated UTF-16 buffer, such as a fixed-size name field.
pub fn string_from_nul_terminated(units: &[u16]) -> (s: String)
    ensures
        s@ == nul_terminated_text(units@),
{
    let n = nul_position(units);
    let prefix = vstd::slice::slice_subrange(units, 0, n);
    assert(prefix@ =~= units@.take(n as int));
    string_from_utf16_lossy(prefix)
}

/// The characters of a string slice.
pub fn chars_of(s: &str) -> (v: Vec<char>)
    ensures
        v@ == s@,
{
    let n = s.unicode_len();
    let mut v: Vec<char> = Vec::new();
    let mut i: usize = 0;
    while i < n
        invariant
            n == s@.len(),
            i <= n,
            v@ == s@.take(i as int),
        decreases n - i,
    {
        v.push(s.get_char(i));
        proof {
            assert(s@.take(i + 1) =~= s@.take(i as int).push(s@[i as int]));
        }
        i = i + 1;
    }
    proof {
        assert(s@.take(n as int) =~= s@);
    }
    v
}

/// What `str::to_lowercase` makes of a text.
pub uninterp spec fn lowercase(s: Seq<char>) -> Seq<char>;

/// An ASCII character.
pub open spec fn is_ascii_char(c: char) -> bool {
    (c as u32) < 0x80
}

/// A text of ASCII characters only.
pub open spec fn is_ascii_text(s: Seq<char>) -> bool {
    forall|i: int| 0 <= i < s.len() ==> is_ascii_char(#[trigger] s[i])
}

/// The lowercase of an ASCII character: `A`-`Z` become `a`-`z`, the rest stay.
pub open spec fn ascii_lower(c: char) -> char {
    if 'A' <= c <= 'Z' { ((c as u32) + 32) as char } else { c }
}

/// An ASCII text, lowercased character by character.
pub open spec fn ascii_lowercase(s: Seq<char>) -> Seq<char> {
    s.map_values(|c: char| ascii_lower(c))
}

/// Calls `str::to_lowercase`, which maps every character to its Unicode
/// lowercase form. Trusted: the contract names the result as a function of the
/// text, and states the two facts its documentation plainly gives: the empty
/// text stays empty, and an ASCII text is lowercased letter by letter (the
/// Unicode lowercase of `A`-`Z` is `a`-`z`; other ASCII characters have none).
/// The general Unicode mapping is left unsaid.
#[verifier::external_body]
pub(crate) fn to_lowercase(s: &str) -> (l: String)
    ensures
        l@ == lowercase(s@),
        s@.len() == 0 ==> l@.len() == 0,
        is_ascii_text(s@) ==> l@ == ascii_lowercase(s@),
{
    s.to_lowercase()
}

/// `needle` occurs in `hay` as a contiguous run of characters.
pub open spec fn contains_text(hay: Seq<char>, needle: Seq<char>) -> bool {
    exists|i: int| 0 <= i <= hay.len() - needle.len() && #[trigger] hay.subrange(i, i + needle.len()) == needle
}

fn matches_at(hay: &Vec<char>, needle: &Vec<char>, start: usize) -> (b: bool)
    requires
        start + needle@.len() <= hay@.len(),
    ensures
        b == (hay@.subrange(start as int, start + needle@.len()) == needle@),
{
    let hay_len = hay.len();
    let mut j: usize = 0;
    while j < needle.len()
        invariant
            start + needle@.len() <= hay@.len(),
            hay_len == hay@.len(),
            j <= needle@.len(),
            forall|k: int| 0 <= k < j ==> hay@[start + k] == needle@[k],
        decreases needle@.len() - j,
    {
        if hay[start + j] != needle[j] {
            assert(hay@.subrange(start as int, start + needle@.len())[j as int] != needle@[j as int]);
            return false;
        }
        j = j + 1;
    }
    assert(hay@.subrange(start as int, start + needle@.len()) =~= needle@);
    true
}

/// Whether `needle` occurs in `hay`, as `str::contains` answers for a text needle.
pub fn text_contains(hay: &Vec<char>, needle: &Vec<char>) -> (b: bool)
    ensures
        b == contains_text(hay@, needle@),
{
    if needle.len() > hay.len() {
        return false;
    }
    let last = hay.len() - needle.len();
    let mut i: usize = 0;
    loop
        invariant
            last == hay@.len() - needle@.len(),
            i <= last,
            forall|k: int| 0 <= k < i ==> #[trigger] hay@.subrange(k, k + needle@.len()) != needle@,
        decreases last - i,
    {
        if matches_at(hay, needle, i) {
            return true;
        }
        if i == last {
            return false;
        }
        i = i + 1;
    }
}

} // verus!
