//! Decimal text of integers: formatting and parsing as std does it for `i32`.
use vstd::prelude::*;
use crate::text::push_char;

verus! {

/// The char of a decimal digit.
pub open spec fn digit_char(d: int) -> char {
    (48 + d) as char
}

/// Whether a char is an ASCII decimal digit.
pub open spec fn is_digit(c: char) -> bool {
    '0' <= c && c <= '9'
}

/// The numeric value of a digit char.
pub open spec fn digit_value(c: char) -> int {
    c as int - 48
}

/// The shortest decimal digits of a natural number.
pub open spec fn decimal_digits(n: nat) -> Seq<char>
    decreases n,
{
    if n < 10 {
        seq![digit_char(n as int)]
    } else {
        decimal_digits(n / 10).push(digit_char((n % 10) as int))
    }
}

/// The decimal text of an integer, with a leading '-' when negative
/// (what `to_string` gives for an integer).
pub open spec fn decimal_text(n: int) -> Seq<char> {
    if n < 0 {
        seq!['-'] + decimal_digits((-n) as nat)
    } else {
        decimal_digits(n as nat)
    }
}

/// Whether `s` is a non-empty run of digits.
pub open spec fn all_digits(s: Seq<char>) -> bool {
    s.len() > 0 && forall|i: int| 0 <= i < s.len() ==> #[trigger] is_digit(s[i])
}

/// The value of a run of digits read in base ten.
pub open spec fn digits_value(s: Seq<char>) -> int
    decreases s.len(),
{
    if s.len() == 0 {
        0
    } else {
        digits_value(s.drop_last()) * 10 + digit_value(s.last())
    }
}

/// The integer that a text denotes in the grammar std's `i32::from_str` accepts:
/// an optional '+' or '-' sign followed by one or more ASCII digits, nothing else.
pub open spec fn signed_decimal_value(s: Seq<char>) -> Option<int> {
    if s.len() > 0 && s[0] == '-' {
        if all_digits(s.drop_first()) { Some(-digits_value(s.drop_first())) } else { None }
    } else if s.len() > 0 && s[0] == '+' {
        if all_digits(s.drop_first()) { Some(digits_value(s.drop_first())) } else { None }
    } else if all_digits(s) {
        Some(digits_value(s))
    } else {
        None
    }
}

/// What parsing `s` as an `i32` gives: the value when the text is well formed
/// and the value fits in an `i32`, else nothing.
pub open spec fn parsed_i32(s: Seq<char>) -> Option<i32> {
    match signed_decimal_value(s) {
        Some(v) => if i32::MIN <= v <= i32::MAX { Some(v as i32) } else { None },
        None => None,
    }
}

fn digit_to_char(d: u64) -> (c: char)
    requires
        d < 10,
    ensures
        c == digit_char(d as int),
        is_digit(c),
        digit_value(c) == d,
{
    let b: u8 = 48u8 + (d as u8);
    b as char
}

fn append_digits(n: u64, out: &mut String)
    ensures
        final(out)@ == old(out)@ + decimal_digits(n as nat),
    decreases n,
{
    if n >= 10 {
        append_digits(n / 10, out);
    }
    let c = digit_to_char(n % 10);
    push_char(out, c);
    proof {
        if n >= 10 {
            assert(decimal_digits(n as nat) == decimal_digits((n / 10) as nat).push(digit_char((n % 10) as int)));
        }
    }
    assert(final(out)@ =~= old(out)@ + decimal_digits(n as nat));
}

/// The decimal text of an `i32`, as its `to_string` writes it.
pub fn format_i32(n: i32) -> (s: String)
    ensures
        s@ == decimal_text(n as int),
{
    let mut out = String::new();
    if n < 0 {
        push_char(&mut out, '-');
        let m: i64 = -(n as i64);
        append_digits(m as u64, &mut out);
    } else {
        append_digits(n as u64, &mut out);
    }
    out
}

proof fn lemma_digits_value_push(s: Seq<char>, c: char)
    ensures
        digits_value(s.push(c)) == digits_value(s) * 10 + digit_value(c),
{
    assert(s.push(c).drop_last() =~= s);
}

proof fn lemma_digits_nonneg(s: Seq<char>)
    requires
        forall|i: int| 0 <= i < s.len() ==> #[trigger] is_digit(s[i]),
    ensures
        0 <= digits_value(s),
    decreases s.len(),
{
    if s.len() > 0 {
        lemma_digits_nonneg(s.drop_last());
        assert(is_digit(s[s.len() - 1]));
    }
}

/// Reads the digits of `s` from char `start` on; `None` when a char is not a
/// digit, when there is none, or when the value exceeds `limit`.
fn read_digits(s: &str, start: usize, limit: u64) -> (r: Option<u64>)
    requires
        start <= s@.len(),
        limit <= 0x8000_0000,
    ensures
        r matches Some(v) ==> all_digits(s@.subrange(start as int, s@.len() as int)) && v
            == digits_value(s@.subrange(start as int, s@.len() as int)) && v <= limit,
        r is None ==> !all_digits(s@.subrange(start as int, s@.len() as int)) || digits_value(
            s@.subrange(start as int, s@.len() as int),
        ) > limit,
{
    let n = s.unicode_len();
    let ghost t = s@.subrange(start as int, n as int);
    if start == n {
        return None;
    }
    let mut acc: u64 = 0;
    let mut over = false;
    let mut i: usize = start;
    while i < n
        invariant
            n == s@.len(),
            start <= i <= n,
            t == s@.subrange(start as int, n as int),
            limit <= 0x8000_0000,
            forall|j: int| start <= j < i ==> #[trigger] is_digit(s@[j]),
            !over ==> acc == digits_value(s@.subrange(start as int, i as int)) && acc <= limit,
            over ==> digits_value(s@.subrange(start as int, i as int)) > limit,
        decreases n - i,
    {
        let c = s.get_char(i);
        if !('0' <= c && c <= '9') {
            assert(t[i - start] == c);
            assert(!is_digit(t[i - start]));
            return None;
        }
        proof {
            assert(s@.subrange(start as int, i + 1) =~= s@.subrange(start as int, i as int).push(c));
            lemma_digits_value_push(s@.subrange(start as int, i as int), c);
            assert forall|j: int| 0 <= j < s@.subrange(start as int, i as int).len() implies
                #[trigger] is_digit(s@.subrange(start as int, i as int)[j]) by {
                assert(s@.subrange(start as int, i as int)[j] == s@[start + j]);
            }
            lemma_digits_nonneg(s@.subrange(start as int, i as int));
        }
        if !over {
            let d = (c as u32 - 48u32) as u64;
            acc = acc * 10 + d;
            if acc > limit {
                over = true;
            }
        }
        i = i + 1;
    }
    assert(t =~= s@.subrange(start as int, i as int));
    assert forall|j: int| 0 <= j < t.len() implies #[trigger] is_digit(t[j]) by {
        assert(t[j] == s@[start + j]);
    }
    if over {
        None
    } else {
        Some(acc)
    }
}

/// Parses a decimal `i32` as std's `str::parse::<i32>` does: an optional sign,
/// then one or more ASCII digits, and a value in range.
pub fn parse_i32(s: &str) -> (r: Option<i32>)
    ensures
        r == parsed_i32(s@),
{
    let n = s.unicode_len();
    if n == 0 {
        return None;
    }
    let first = s.get_char(0);
    if first == '-' || first == '+' {
        let negative = first == '-';
        let limit: u64 = if negative { 0x8000_0000 } else { 0x7fff_ffff };
        let ghost rest = s@.subrange(1, n as int);
        assert(rest =~= s@.drop_first());
        match read_digits(s, 1, limit) {
            Some(v) => {
                if negative {
                    let w: i64 = -(v as i64);
                    Some(w as i32)
                } else {
                    Some(v as i32)
                }
            },
            None => None,
        }
    } else {
        assert(s@.subrange(0, n as int) =~= s@);
        assert(!is_digit(first) ==> !all_digits(s@));
        match read_digits(s, 0, 0x7fff_ffff) {
            Some(v) => Some(v as i32),
            None => None,
        }
    }
}

proof fn lemma_decimal_digits_are_digits(n: nat)
    ensures
        all_digits(decimal_digits(n)),
        digits_value(decimal_digits(n)) == n,
        decimal_digits(n)[0] != '-' && decimal_digits(n)[0] != '+',
    decreases n,
{
    if n >= 10 {
        lemma_decimal_digits_are_digits(n / 10);
        let d = decimal_digits(n / 10);
        let c = digit_char((n % 10) as int);
        lemma_digits_value_push(d, c);
        assert(digit_value(c) == n % 10);
        assert(decimal_digits(n) == d.push(c));
        assert forall|i: int| 0 <= i < d.push(c).len() implies #[trigger] is_digit(d.push(c)[i]) by {
            if i < d.len() {
                assert(is_digit(d[i]));
            }
        }
    } else {
        let c = digit_char(n as int);
        assert(digit_value(c) == n);
        lemma_digits_value_push(Seq::<char>::empty(), c);
        assert(decimal_digits(n) =~= Seq::<char>::empty().push(c));
    }
}

/// The decimal text of an integer is never empty.
pub proof fn lemma_decimal_text_nonempty(n: int)
    ensures
        decimal_text(n).len() > 0,
{
    if n < 0 {
        lemma_decimal_digits_are_digits((-n) as nat);
    } else {
        lemma_decimal_digits_are_digits(n as nat);
    }
}

/// Formatting an `i32` in decimal and parsing the text back gives the same
/// number: a port written into a form reads back unchanged.
pub proof fn lemma_parse_format_roundtrip(n: i32)
    ensures
        parsed_i32(decimal_text(n as int)) == Some(n),
{
    if n < 0 {
        let m = (-n) as nat;
        lemma_decimal_digits_are_digits(m);
        let t = decimal_text(n as int);
        assert(t.drop_first() =~= decimal_digits(m));
    } else {
        lemma_decimal_digits_are_digits(n as nat);
    }
}

} // verus!
