//! Display columns of text in a terminal, and cutting text to a width.
use vstd::prelude::*;
use unicode_width::{UnicodeWidthChar, UnicodeWidthStr};
use crate::text::push_char;

verus! {

/// The columns the unicode-width crate gives a char (`None` for control
/// chars).
pub uninterp spec fn char_columns(c: char) -> Option<usize>;

/// The columns the unicode-width crate gives a whole text.
pub uninterp spec fn text_columns(s: Seq<char>) -> usize;

/// Calls `unicode_width::UnicodeWidthChar::width`.
///
/// The contract names the result and states what the crate's source shows
/// directly: printable ASCII takes one column, the C0 and C1 control ranges
/// give `None`, and no char takes more than three columns. The table lookup
/// for the other chars is left to the name.
#[verifier::external_body]
fn char_width(c: char) -> (r: Option<usize>)
    ensures
        r == char_columns(c),
        0x20 <= c as u32 && (c as u32) < 0x7F ==> r == Some(1usize),
        (c as u32) < 0x20 || (0x7F <= c as u32 && (c as u32) < 0xA0) ==> r is None,
        r matches Some(w) ==> w <= 3,
{
    UnicodeWidthChar::width(c)
}

/// Calls `unicode_width::UnicodeWidthStr::width`.
///
/// The contract names the result and states only that an empty text takes no
/// columns; the crate sums per-char widths with corrections for emoji and
/// other sequences, which the name stands for.
#[verifier::external_body]
fn str_width(s: &str) -> (r: usize)
    ensures
        r == text_columns(s@),
        s@.len() == 0 ==> r == 0,
{
    UnicodeWidthStr::width(s)
}

/// The columns of a text as shown on screen.
pub fn display_width(s: &str) -> (r: usize)
    ensures
        r == text_columns(s@),
{
    str_width(s)
}

/// The columns a char takes when text is cut to a width: a control char
/// counts as one column.
pub open spec fn cut_columns(c: char) -> int {
    match char_columns(c) {
        Some(w) => w as int,
        None => 1,
    }
}

/// The columns of a text counted char by char as `cut_columns` does.
pub open spec fn columns_of(s: Seq<char>) -> int
    decreases s.len(),
{
    if s.len() == 0 {
        0
    } else {
        columns_of(s.drop_last()) + cut_columns(s.last())
    }
}

/// How many leading chars of `s` are kept when cutting it to `room` columns:
/// chars are kept from the front while each, once added, still leaves a
/// column free for an ellipsis.
pub open spec fn kept_chars(s: Seq<char>, room: int) -> int
    decreases s.len(),
{
    if s.len() == 0 || cut_columns(s[0]) + 1 > room {
        0
    } else {
        1 + kept_chars(s.drop_first(), room - cut_columns(s[0]))
    }
}

/// A text cut to at most `max_cols` columns, with the columns it takes: a
/// text that fits is kept whole; otherwise the chars kept are followed by '…'.
pub open spec fn truncated(s: Seq<char>, max_cols: int) -> (Seq<char>, int) {
    if columns_of(s) <= max_cols {
        (s, columns_of(s))
    } else if max_cols == 0 {
        (Seq::empty(), 0)
    } else {
        let k = kept_chars(s, max_cols);
        (s.take(k).push('…'), columns_of(s.take(k)) + 1)
    }
}

/// Every char of the text is printable ASCII.
pub open spec fn printable_ascii(s: Seq<char>) -> bool {
    forall|j: int| 0 <= j < s.len() ==> 0x20 <= #[trigger] s[j] as u32 && (s[j] as u32) < 0x7F
}

/// `truncated` for a text of printable ASCII, where each char takes one
/// column: kept whole when it fits, else its first `max_cols - 1` chars and
/// '…'.
pub open spec fn ascii_truncated(s: Seq<char>, max_cols: int) -> (Seq<char>, int) {
    if s.len() <= max_cols {
        (s, s.len() as int)
    } else if max_cols == 0 {
        (Seq::empty(), 0)
    } else {
        (s.take(max_cols - 1).push('…'), max_cols)
    }
}

proof fn lemma_columns_push(s: Seq<char>, c: char)
    ensures
        columns_of(s.push(c)) == columns_of(s) + cut_columns(c),
{
    assert(s.push(c).drop_last() =~= s);
}

proof fn lemma_kept_bounds(s: Seq<char>, room: int)
    ensures
        0 <= kept_chars(s, room) <= s.len(),
    decreases s.len(),
{
    if s.len() > 0 && cut_columns(s[0]) + 1 <= room {
        lemma_kept_bounds(s.drop_first(), room - cut_columns(s[0]));
    }
}

/// Whether `s` takes at most `max_cols` columns, counted as `columns_of`
/// does, and if so how many.
fn fitting_columns(s: &str, max_cols: usize) -> (r: Option<usize>)
    ensures
        match r {
            Some(w) => columns_of(s@) <= max_cols && w == columns_of(s@),
            None => columns_of(s@) > max_cols,
        },
        printable_ascii(s@) ==> match r {
            Some(w) => w == s@.len(),
            None => s@.len() > max_cols,
        },
{
    let n = s.unicode_len();
    let mut used: usize = 0;
    let mut i: usize = 0;
    assert(s@.take(0) =~= Seq::<char>::empty());
    while i < n
        invariant
            n == s@.len(),
            i <= n,
            used <= max_cols,
            used == columns_of(s@.take(i as int)),
            printable_ascii(s@) ==> used == i,
        decreases n - i,
    {
        let ch = s.get_char(i);
        let cw: usize = match char_width(ch) {
            Some(w) => w,
            None => 1,
        };
        proof {
            assert(s@.take(i + 1) =~= s@.take(i as int).push(ch));
            lemma_columns_push(s@.take(i as int), ch);
        }
        if cw > max_cols - used {
            proof {
                lemma_columns_prefix(s@, i + 1);
            }
            return None;
        }
        used = used + cw;
        i = i + 1;
    }
    assert(s@.take(n as int) =~= s@);
    Some(used)
}

/// Cuts `s` to at most `max_cols` columns: a text that fits is kept whole,
/// one that does not is cut and marked with '…'; returns the text and the
/// columns it takes.
pub fn truncate_to_cols(s: &str, max_cols: usize) -> (r: (String, usize))
    ensures
        (r.0@, r.1 as int) == truncated(s@, max_cols as int),
        r.1 <= max_cols,
        printable_ascii(s@) ==> (r.0@, r.1 as int) == ascii_truncated(s@, max_cols as int),
{
    if let Some(w) = fitting_columns(s, max_cols) {
        return (String::from_str(s), w);
    }
    if max_cols == 0 {
        return (String::new(), 0);
    }
    let n = s.unicode_len();
    let mut out = String::new();
    let mut used: usize = 0;
    let mut i: usize = 0;
    assert(s@.skip(0) =~= s@);
    assert(s@.take(0) =~= Seq::<char>::empty());
    while i < n
        invariant
            n == s@.len(),
            i <= n,
            max_cols > 0,
            columns_of(s@) > max_cols,
            used + 1 <= max_cols,
            out@ == s@.take(i as int),
            used == columns_of(s@.take(i as int)),
            kept_chars(s@, max_cols as int) == i + kept_chars(s@.skip(i as int), max_cols - used),
            printable_ascii(s@) ==> used == i && n > max_cols,
        decreases n - i,
    {
        let ch = s.get_char(i);
        let cw: usize = match char_width(ch) {
            Some(w) => w,
            None => 1,
        };
        assert(s@.skip(i as int)[0] == ch);
        assert(s@.skip(i as int).drop_first() =~= s@.skip(i + 1));
        if cw >= max_cols - used {
            push_char(&mut out, '…');
            proof {
                lemma_kept_bounds(s@, max_cols as int);
            }
            return (out, used + 1);
        }
        push_char(&mut out, ch);
        proof {
            assert(s@.take(i + 1) =~= s@.take(i as int).push(ch));
            lemma_columns_push(s@.take(i as int), ch);
        }
        used = used + cw;
        i = i + 1;
    }
    assert(s@.take(n as int) =~= s@);
    (out, used)
}

/// The columns of a prefix are at most those of the whole text.
proof fn lemma_columns_prefix(s: Seq<char>, k: int)
    requires
        0 <= k <= s.len(),
    ensures
        columns_of(s.take(k)) <= columns_of(s),
    decreases s.len() - k,
{
    if k < s.len() {
        lemma_columns_prefix(s, k + 1);
        assert(s.take(k + 1) =~= s.take(k).push(s[k]));
        lemma_columns_push(s.take(k), s[k]);
        match char_columns(s[k]) {
            Some(w) => {},
            None => {},
        }
    } else {
        assert(s.take(k) =~= s);
    }
}

/// A text cut by `truncate_to_cols` never takes more than the columns it was
/// cut to.
pub proof fn lemma_truncated_fits(s: Seq<char>, max_cols: nat)
    ensures
        truncated(s, max_cols as int).1 <= max_cols,
{
    if columns_of(s) > max_cols && max_cols > 0 {
        lemma_fits(s, max_cols as int);
        lemma_kept_bounds(s, max_cols as int);
    }
}

proof fn lemma_fits(s: Seq<char>, room: int)
    requires
        room >= 1,
    ensures
        kept_chars(s, room) == s.len() ==> columns_of(s) <= room - 1,
        kept_chars(s, room) < s.len() ==> columns_of(s.take(kept_chars(s, room))) + 1 <= room,
    decreases s.len(),
{
    if s.len() == 0 {
    } else if cut_columns(s[0]) + 1 > room {
        assert(s.take(0) =~= Seq::<char>::empty());
    } else {
        let rest = s.drop_first();
        let r2 = room - cut_columns(s[0]);
        lemma_fits(rest, r2);
        lemma_columns_front(s);
        let k = kept_chars(rest, r2);
        lemma_kept_bounds(rest, r2);
        if k < rest.len() {
            assert(s.take(k + 1).drop_first() =~= rest.take(k));
            lemma_columns_front(s.take(k + 1));
        }
    }
}

proof fn lemma_columns_front(s: Seq<char>)
    requires
        s.len() > 0,
    ensures
        columns_of(s) == cut_columns(s[0]) + columns_of(s.drop_first()),
    decreases s.len(),
{
    if s.len() == 1 {
        assert(s.drop_first() =~= Seq::<char>::empty());
        assert(s.drop_last() =~= Seq::<char>::empty());
    } else {
        lemma_columns_front(s.drop_last());
        assert(s.drop_last().drop_first() =~= s.drop_first().drop_last());
    }
}

} // verus!
