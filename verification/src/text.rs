//! Character-level text helpers shared by the whole library: prefix, suffix
//! and substring tests, replacement, and the few facts about `char` and `str`
//! of the standard library that the rest of the crate relies on.
use vstd::prelude::*;

verus! {

// ---------------------------------------------------------------------------
// Specifications
// ---------------------------------------------------------------------------

pub open spec fn is_ascii_letter(c: char) -> bool {
    ('a' <= c && c <= 'z') || ('A' <= c && c <= 'Z')
}

pub open spec fn is_ascii_digit(c: char) -> bool {
    '0' <= c && c <= '9'
}

pub open spec fn is_ascii_upper(c: char) -> bool {
    'A' <= c && c <= 'Z'
}

pub open spec fn is_ascii_lower(c: char) -> bool {
    'a' <= c && c <= 'z'
}

pub open spec fn is_ascii_char(c: char) -> bool {
    (c as u32) < 128
}

/// `s` begins with `p`.
pub open spec fn has_prefix(s: Seq<char>, p: Seq<char>) -> bool {
    p.len() <= s.len() && s.subrange(0, p.len() as int) == p
}

/// `s` ends with `p`.
pub open spec fn has_suffix(s: Seq<char>, p: Seq<char>) -> bool {
    p.len() <= s.len() && s.subrange(s.len() - p.len(), s.len() as int) == p
}

/// `p` occurs in `s` starting at position `i`.
pub open spec fn occurs_at(s: Seq<char>, p: Seq<char>, i: int) -> bool {
    0 <= i && i + p.len() <= s.len() && s.subrange(i, i + p.len()) == p
}

/// `p` occurs somewhere in `s`.
pub open spec fn has_substring(s: Seq<char>, p: Seq<char>) -> bool {
    exists|i: int| occurs_at(s, p, i)
}

/// `rep` before every character of `s` and once more at the end: what
/// replacing the empty pattern gives.
pub open spec fn interleave(s: Seq<char>, rep: Seq<char>) -> Seq<char>
    decreases s.len(),
{
    if s.len() == 0 {
        rep
    } else {
        rep + seq![s[0]] + interleave(s.drop_first(), rep)
    }
}

/// Every non-overlapping occurrence of `pat` in `s`, found from left to right,
/// replaced by `rep`.
pub open spec fn replace_all(s: Seq<char>, pat: Seq<char>, rep: Seq<char>) -> Seq<char>
    decreases s.len(),
{
    if pat.len() == 0 {
        interleave(s, rep)
    } else if s.len() < pat.len() {
        s
    } else if s.subrange(0, pat.len() as int) == pat {
        rep + replace_all(s.skip(pat.len() as int), pat, rep)
    } else {
        seq![s[0]] + replace_all(s.drop_first(), pat, rep)
    }
}

/// Every `from` character of `s` turned into `to`.
pub open spec fn replace_char(s: Seq<char>, from: char, to: char) -> Seq<char> {
    s.map_values(|c: char| if c == from { to } else { c })
}

// ---------------------------------------------------------------------------
// What the standard library computes on characters and strings
// ---------------------------------------------------------------------------

/// What `str::to_lowercase` returns for a string with the given characters.
pub uninterp spec fn lowercase_of(s: Seq<char>) -> Seq<char>;

/// Whether `char::is_alphabetic` holds of a character.
pub uninterp spec fn char_is_alphabetic(c: char) -> bool;

/// Whether `char::is_alphanumeric` holds of a character.
pub uninterp spec fn char_is_alphanumeric(c: char) -> bool;

/// ASCII letters mapped to lower case, every other character kept.
pub open spec fn ascii_lower(s: Seq<char>) -> Seq<char> {
    s.map_values(|c: char| if is_ascii_upper(c) { ((c as u32) + 32) as char } else { c })
}

/// Calls `str::to_lowercase`. The result is named by `lowercase_of`; on ASCII
/// text, Unicode lower-casing maps `A`..`Z` to `a`..`z` and keeps every other
/// character, which the second clause states. For other text nothing more
/// than the name is claimed.
#[verifier::external_body]
pub(crate) fn to_lowercase(s: &str) -> (res: String)
    ensures
        res@ == lowercase_of(s@),
        vstd::utf8::is_ascii_chars(s@) ==> res@ == ascii_lower(s@),
{
    s.to_lowercase()
}

/// Calls `char::is_alphabetic`. For an ASCII character the Unicode
/// `Alphabetic` property holds exactly of the letters `a`..`z` and `A`..`Z`;
/// for other characters the result is only named.
#[verifier::external_body]
pub(crate) fn is_alphabetic(c: char) -> (res: bool)
    ensures
        res == char_is_alphabetic(c),
        is_ascii_char(c) ==> (res <==> is_ascii_letter(c)),
{
    c.is_alphabetic()
}

/// Calls `char::is_alphanumeric`, documented as `is_alphabetic() ||
/// is_numeric()`. For an ASCII character this holds exactly of letters and
/// the digits `0`..`9`; every alphabetic character is alphanumeric.
#[verifier::external_body]
pub(crate) fn is_alphanumeric(c: char) -> (res: bool)
    ensures
        res == char_is_alphanumeric(c),
        is_ascii_char(c) ==> (res <==> (is_ascii_letter(c) || is_ascii_digit(c))),
        char_is_alphabetic(c) ==> res,
{
    c.is_alphanumeric()
}

/// Calls `String::push`, which appends one character.
#[verifier::external_body]
pub(crate) fn push_char(s: &mut String, c: char)
    ensures
        final(s)@ == old(s)@.push(c),
{
    s.push(c);
}

// ---------------------------------------------------------------------------
// Conversions
// ---------------------------------------------------------------------------

/// The characters of `s`, one by one.
pub fn chars_of(s: &str) -> (v: Vec<char>)
    ensures
        v@ == s@,
{
    let mut v: Vec<char> = Vec::new();
    for c in it: s.chars()
        invariant
            v@ == it.seq().take(it.index() as int),
    {
        v.push(c);
    }
    v
}

/// A string made of the given characters.
pub fn string_of(v: &[char]) -> (s: String)
    ensures
        s@ == v@,
{
    let mut s = String::new();
    let mut i: usize = 0;
    while i < v.len()
        invariant
            i <= v@.len(),
            s@ == v@.take(i as int),
        decreases v@.len() - i,
    {
        push_char(&mut s, v[i]);
        i = i + 1;
        assert(s@ =~= v@.take(i as int));
    }
    assert(v@.take(v@.len() as int) =~= v@);
    s
}

/// The concatenation of the given pieces.
pub fn concat(a: &str, b: &str) -> (s: String)
    ensures
        s@ == a@ + b@,
{
    let mut s = a.to_owned();
    s.append(b);
    s
}

// ---------------------------------------------------------------------------
// Tests on character sequences
// ---------------------------------------------------------------------------

/// Whether `p` occurs in `s` at position `i`.
pub fn matches_at(s: &[char], p: &[char], i: usize) -> (res: bool)
    ensures
        res == occurs_at(s@, p@, i as int),
{
    if i > s.len() || p.len() > s.len() - i {
        return false;
    }
    let mut j: usize = 0;
    while j < p.len()
        invariant
            i + p@.len() <= s@.len(),
            s@.len() == s.len(),
            j <= p@.len(),
            forall|k: int| 0 <= k < j ==> s@[i + k] == p@[k],
        decreases p@.len() - j,
    {
        if s[i + j] != p[j] {
            assert(s@.subrange(i as int, i + p@.len())[j as int] != p@[j as int]);
            return false;
        }
        j = j + 1;
    }
    assert(s@.subrange(i as int, i + p@.len()) =~= p@);
    true
}

/// Whether `s` begins with `p`.
pub fn starts_with(s: &[char], p: &[char]) -> (res: bool)
    ensures
        res == has_prefix(s@, p@),
{
    matches_at(s, p, 0)
}

/// Whether `s` ends with `p`.
pub fn ends_with(s: &[char], p: &[char]) -> (res: bool)
    ensures
        res == has_suffix(s@, p@),
{
    if p.len() > s.len() {
        false
    } else {
        matches_at(s, p, s.len() - p.len())
    }
}

/// Whether `p` occurs anywhere in `s`.
pub fn contains(s: &[char], p: &[char]) -> (res: bool)
    ensures
        res == has_substring(s@, p@),
{
    if p.len() > s.len() {
        assert forall|i: int| !occurs_at(s@, p@, i) by {}
        return false;
    }
    if p.len() == 0 {
        assert(s@.subrange(0, 0) =~= p@);
        assert(occurs_at(s@, p@, 0));
        return true;
    }
    let last = s.len() - p.len();
    let mut i: usize = 0;
    while i <= last
        invariant
            last + p@.len() == s@.len(),
            p@.len() > 0,
            s@.len() == s.len(),
            forall|k: int| 0 <= k < i ==> !occurs_at(s@, p@, k),
        decreases last + 1 - i,
    {
        if matches_at(s, p, i) {
            return true;
        }
        i = i + 1;
    }
    assert forall|k: int| !occurs_at(s@, p@, k) by {
        if 0 <= k < i {
        }
    }
    false
}

/// Whether the character `c` occurs in `s`.
pub fn contains_char(s: &[char], c: char) -> (res: bool)
    ensures
        res == s@.contains(c),
{
    let mut i: usize = 0;
    while i < s.len()
        invariant
            i <= s@.len(),
            forall|k: int| 0 <= k < i ==> s@[k] != c,
        decreases s@.len() - i,
    {
        if s[i] == c {
            return true;
        }
        i = i + 1;
    }
    false
}

/// Whether the two strings hold the same text.
pub fn same_text(a: &str, b: &str) -> (res: bool)
    ensures
        res == (a@ == b@),
{
    let x = a.to_owned();
    let y = b.to_owned();
    x == y
}

/// `s` with every non-overlapping occurrence of `pat`, found from left to
/// right, replaced by `rep` (as `str::replace` does).
pub fn replace(s: &[char], pat: &[char], rep: &[char]) -> (out: Vec<char>)
    ensures
        out@ == replace_all(s@, pat@, rep@),
{
    let mut out: Vec<char> = Vec::new();
    let mut i: usize = 0;
    if pat.len() == 0 {
        assert(s@.skip(0) =~= s@);
        assert(out@ + interleave(s@, rep@) =~= interleave(s@, rep@));
        while i < s.len()
            invariant
                pat@.len() == 0,
                i <= s@.len(),
                out@ + interleave(s@.skip(i as int), rep@) == replace_all(s@, pat@, rep@),
            decreases s@.len() - i,
        {
            let ghost before = out@;
            assert(s@.skip(i as int).drop_first() =~= s@.skip(i + 1));
            append_all(&mut out, rep);
            out.push(s[i]);
            i = i + 1;
            assert(before + interleave(s@.skip(i - 1), rep@) =~= out@ + interleave(s@.skip(i as int), rep@));
        }
        assert(s@.skip(i as int) =~= Seq::<char>::empty());
        append_all(&mut out, rep);
        return out;
    }
    assert(s@.skip(0) =~= s@);
    assert(out@ + replace_all(s@, pat@, rep@) =~= replace_all(s@, pat@, rep@));
    while i < s.len()
        invariant
            pat@.len() > 0,
            i <= s@.len(),
            s@.len() == s.len(),
            out@ + replace_all(s@.skip(i as int), pat@, rep@) == replace_all(s@, pat@, rep@),
        decreases s@.len() - i,
    {
        let ghost rest = s@.skip(i as int);
        let ghost before = out@;
        if matches_at(s, pat, i) {
            assert(rest.subrange(0, pat@.len() as int) =~= s@.subrange(i as int, i + pat@.len()));
            assert(rest.skip(pat@.len() as int) =~= s@.skip(i + pat@.len()));
            append_all(&mut out, rep);
            i = i + pat.len();
            assert(before + replace_all(rest, pat@, rep@) =~= out@ + replace_all(s@.skip(i as int), pat@, rep@));
        } else {
            proof {
                if rest.len() >= pat@.len() {
                    assert(rest.subrange(0, pat@.len() as int) =~= s@.subrange(i as int, i + pat@.len()));
                }
                assert(rest.drop_first() =~= s@.skip(i + 1));
                if rest.len() < pat@.len() {
                    // the rest is copied unchanged, one character at a time
                    assert(replace_all(rest, pat@, rep@) == rest);
                    assert(replace_all(rest.drop_first(), pat@, rep@) == rest.drop_first());
                    assert(rest =~= seq![rest[0]] + rest.drop_first());
                }
            }
            out.push(s[i]);
            i = i + 1;
            assert(before + replace_all(rest, pat@, rep@) =~= out@ + replace_all(s@.skip(i as int), pat@, rep@));
        }
    }
    assert(s@.skip(i as int) =~= Seq::<char>::empty());
    assert(out@ + replace_all(s@.skip(i as int), pat@, rep@) =~= out@);
    out
}

/// Appends every character of `extra` to `out`.
pub fn append_all(out: &mut Vec<char>, extra: &[char])
    ensures
        final(out)@ == old(out)@ + extra@,
{
    let mut j: usize = 0;
    while j < extra.len()
        invariant
            j <= extra@.len(),
            out@ == old(out)@ + extra@.take(j as int),
        decreases extra@.len() - j,
    {
        out.push(extra[j]);
        j = j + 1;
        assert(out@ =~= old(out)@ + extra@.take(j as int));
    }
    assert(extra@.take(extra@.len() as int) =~= extra@);
}

// ---------------------------------------------------------------------------
// UTF-8 length
// ---------------------------------------------------------------------------

/// The UTF-8 encoding of a concatenation is the concatenation of the encodings.
pub proof fn lemma_encode_utf8_append(a: Seq<char>, b: Seq<char>)
    ensures
        vstd::utf8::encode_utf8(a + b) == vstd::utf8::encode_utf8(a) + vstd::utf8::encode_utf8(b),
    decreases a.len(),
{
    if a.len() == 0 {
        assert(a + b =~= b);
        assert(vstd::utf8::encode_utf8(a) =~= Seq::<u8>::empty());
        assert(vstd::utf8::encode_utf8(a) + vstd::utf8::encode_utf8(b) =~= vstd::utf8::encode_utf8(b));
    } else {
        assert((a + b).drop_first() =~= a.drop_first() + b);
        assert((a + b)[0] == a[0]);
        lemma_encode_utf8_append(a.drop_first(), b);
        assert(vstd::utf8::encode_utf8(a + b) =~= vstd::utf8::encode_utf8(a) + vstd::utf8::encode_utf8(b));
    }
}

/// The number of bytes of the UTF-8 encoding of `c`.
fn utf8_width(c: char) -> (w: usize)
    ensures
        w == vstd::utf8::encode_scalar(c as u32).len(),
        1 <= w <= 4,
{
    let v = c as u32;
    if v < 0x80 {
        1
    } else if v < 0x800 {
        2
    } else if v < 0x10000 {
        3
    } else {
        4
    }
}

/// Whether the UTF-8 encoding of `s` (what `str::len` counts) is longer than
/// `limit` bytes.
pub fn utf8_len_exceeds(s: &[char], limit: usize) -> (res: bool)
    requires
        limit < usize::MAX - 4,
    ensures
        res == (vstd::utf8::encode_utf8(s@).len() > limit),
{
    let mut total: usize = 0;
    let mut i: usize = 0;
    assert(s@.take(0) =~= Seq::<char>::empty());
    while i < s.len()
        invariant
            i <= s@.len(),
            total <= limit,
            limit < usize::MAX - 4,
            total == vstd::utf8::encode_utf8(s@.take(i as int)).len(),
        decreases s@.len() - i,
    {
        let w = utf8_width(s[i]);
        proof {
            assert(s@.take(i + 1) =~= s@.take(i as int) + seq![s@[i as int]]);
            lemma_encode_utf8_append(s@.take(i as int), seq![s@[i as int]]);
            let one = seq![s@[i as int]];
            assert(one.drop_first() =~= Seq::<char>::empty());
            assert(vstd::utf8::encode_utf8(one.drop_first()) =~= Seq::<u8>::empty());
            assert(vstd::utf8::encode_utf8(one) =~= vstd::utf8::encode_scalar(s@[i as int] as u32));
        }
        total = total + w;
        i = i + 1;
        if total > limit {
            proof {
                lemma_encode_utf8_append(s@.take(i as int), s@.skip(i as int));
                assert(s@.take(i as int) + s@.skip(i as int) =~= s@);
            }
            return true;
        }
    }
    assert(s@.take(i as int) =~= s@);
    false
}

} // verus!
