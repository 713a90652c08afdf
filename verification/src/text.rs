//! Character-level text editing and decimal numbers.
use vstd::prelude::*;
use vstd::utf8::encode_utf8;

verus! {

/// The smaller of two integers.
pub open spec fn min_int(a: int, b: int) -> int {
    if a <= b { a } else { b }
}

/// Appends one char to a string.
///
/// Calls `String::push`, which std documents as appending the given char to the
/// end of the string; the contract states exactly that.
#[verifier::external_body]
pub(crate) fn push_char(s: &mut String, c: char)
    ensures
        final(s)@ == old(s)@.push(c),
{
    s.push(c)
}

/// Removes the last char of a string and returns it, or returns `None` and
/// leaves the string as it is when it is empty.
pub(crate) fn pop_char(s: &mut String) -> (r: Option<char>)
    ensures
        old(s)@.len() == 0 ==> r is None && final(s)@ == old(s)@,
        old(s)@.len() > 0 ==> r == Some(old(s)@.last()) && final(s)@ == old(s)@.drop_last(),
{
    let n = s.as_str().unicode_len();
    if n == 0 {
        return None;
    }
    let c = s.as_str().get_char(n - 1);
    let rest = String::from_str(s.as_str().substring_char(0, n - 1));
    assert(rest@ =~= old(s)@.drop_last());
    *s = rest;
    Some(c)
}

/// Whether a string has no characters.
pub fn is_blank(s: &String) -> (r: bool)
    ensures
        r == (s@.len() == 0),
{
    s.as_str().unicode_len() == 0
}

/// Whether two strings hold the same characters.
pub fn str_eq(a: &str, b: &str) -> (r: bool)
    ensures
        r == (a@ == b@),
{
    let n = a.unicode_len();
    if n != b.unicode_len() {
        return false;
    }
    let mut i: usize = 0;
    while i < n
        invariant
            n == a@.len(),
            n == b@.len(),
            i <= n,
            forall|j: int| 0 <= j < i ==> a@[j] == b@[j],
        decreases n - i,
    {
        if a.get_char(i) != b.get_char(i) {
            return false;
        }
        i = i + 1;
    }
    assert(a@ =~= b@);
    true
}

/// Whether `s` ends with `suffix`.
pub fn ends_with(s: &str, suffix: &str) -> (r: bool)
    ensures
        r == suffix@.is_suffix_of(s@),
{
    let n = s.unicode_len();
    let m = suffix.unicode_len();
    if m > n {
        return false;
    }
    let off = n - m;
    let mut i: usize = 0;
    while i < m
        invariant
            n == s@.len(),
            m == suffix@.len(),
            off == n - m,
            i <= m,
            forall|j: int| 0 <= j < i ==> suffix@[j] == s@[off + j],
        decreases m - i,
    {
        if suffix.get_char(i) != s.get_char(off + i) {
            assert(s@.subrange(off as int, n as int)[i as int] == s@[off + i]);
            return false;
        }
        i = i + 1;
    }
    assert(s@.subrange(off as int, n as int) =~= suffix@);
    true
}

/// The byte position in `s` at which the char with index `char_idx` starts,
/// or the byte length of `s` when the string has no such char.
pub fn char_byte_offset(s: &str, char_idx: usize) -> (r: usize)
    ensures
        r == encode_utf8(s@.subrange(0, min_int(char_idx as int, s@.len() as int))).len()
            as usize,
{
    let n = s.unicode_len();
    let k = if char_idx < n { char_idx } else { n };
    s.substring_char(0, k).len()
}

/// Inserts `c` so that it becomes the char at index `char_idx`; past the end of
/// the string the char is appended.
pub fn insert_at_char(s: &mut String, char_idx: usize, c: char)
    ensures
        final(s)@ == old(s)@.insert(min_int(char_idx as int, old(s)@.len() as int), c),
{
    let n = s.as_str().unicode_len();
    let k = if char_idx < n { char_idx } else { n };
    let mut out = String::from_str(s.as_str().substring_char(0, k));
    push_char(&mut out, c);
    out.append(s.as_str().substring_char(k, n));
    assert(out@ =~= old(s)@.insert(k as int, c));
    *s = out;
}

/// Removes the char just before char position `char_idx` (the one a backspace
/// at that cursor deletes); does nothing at position 0 or past the end.
pub fn remove_char_before(s: &mut String, char_idx: usize)
    ensures
        0 < char_idx <= old(s)@.len() ==> final(s)@ == old(s)@.remove(char_idx - 1),
        !(0 < char_idx <= old(s)@.len()) ==> final(s)@ == old(s)@,
{
    let n = s.as_str().unicode_len();
    if char_idx == 0 || char_idx > n {
        return;
    }
    let mut out = String::from_str(s.as_str().substring_char(0, char_idx - 1));
    out.append(s.as_str().substring_char(char_idx, n));
    assert(out@ =~= old(s)@.remove(char_idx - 1));
    *s = out;
}

} // verus!
