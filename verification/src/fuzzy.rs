//! Fuzzy matching of a search query against a connection, and the split of
//! the matched positions over the connection's name, user and host.
use vstd::prelude::*;
use fuzzy_matcher::FuzzyMatcher;
use fuzzy_matcher::skim::SkimMatcherV2;
use crate::connection::{Connection, ConnectionView};
use crate::text::push_char;

verus! {

/// What the skim fuzzy matcher (in its default configuration) answers for a
/// choice text and a pattern: the score and the matched char positions of the
/// choice, or nothing when the pattern does not match.
pub uninterp spec fn skim_match(choice: Seq<char>, pattern: Seq<char>) -> Option<(i64, Seq<usize>)>;

/// The char with ASCII capitals made small, as `char::to_ascii_lowercase`.
pub open spec fn ascii_lower(c: char) -> char {
    if 0x41 <= c as u32 && c as u32 <= 0x5A {
        ((c as u32) + 32) as char
    } else {
        c
    }
}

/// Whether a text holds an ASCII capital letter.
pub open spec fn has_ascii_upper(s: Seq<char>) -> bool {
    exists|i: int| 0 <= i < s.len() && 0x41 <= #[trigger] s[i] as u32 && s[i] as u32 <= 0x5A
}

/// Two chars count as equal: exactly, or up to ASCII case when the
/// comparison ignores case.
pub open spec fn chars_match(c: char, p: char, case_sensitive: bool) -> bool {
    if case_sensitive {
        c == p
    } else {
        ascii_lower(c) == ascii_lower(p)
    }
}

/// `idx` gives, in increasing order, positions of `choice` whose chars match
/// the chars of `pattern` one by one.
pub open spec fn subsequence_at(choice: Seq<char>, pattern: Seq<char>, case_sensitive: bool, idx: Seq<int>) -> bool {
    &&& idx.len() == pattern.len()
    &&& forall|j: int| 0 <= j < idx.len() ==> 0 <= #[trigger] idx[j] < choice.len()
        && chars_match(choice[idx[j]], pattern[j], case_sensitive)
    &&& forall|j: int, k: int| 0 <= j < k < idx.len() ==> #[trigger] idx[j] < #[trigger] idx[k]
}

/// `pattern` occurs in `choice` as a subsequence: its chars appear in
/// `choice` in order, not necessarily next to each other.
pub open spec fn fuzzy_subsequence(choice: Seq<char>, pattern: Seq<char>, case_sensitive: bool) -> bool {
    exists|idx: Seq<int>| subsequence_at(choice, pattern, case_sensitive, idx)
}

/// Whether the skim matcher finds `pattern` in `choice`: the pattern must be a
/// subsequence of the choice, compared up to ASCII case unless the pattern
/// holds an ASCII capital ("smart case").
pub open spec fn skim_finds(choice: Seq<char>, pattern: Seq<char>) -> bool {
    fuzzy_subsequence(choice, pattern, has_ascii_upper(pattern))
}

/// The positions are in strictly increasing order and each is below `bound`.
pub open spec fn increasing_below(s: Seq<usize>, bound: int) -> bool {
    &&& forall|j: int| 0 <= j < s.len() ==> #[trigger] s[j] < bound
    &&& forall|j: int, k: int| 0 <= j < k < s.len() ==> #[trigger] s[j] < #[trigger] s[k]
}

/// Runs `fuzzy_matcher::skim::SkimMatcherV2::default().fuzzy_indices(choice, pattern)`.
///
/// The contract claims that the answer is the one `skim_match` names for these
/// two texts (the matcher's source computes it from the two texts and its
/// default settings alone; its caches are not observable in the result), and
/// that there is an answer exactly when `skim_finds` holds: in the source the
/// only `None` comes from its greedy subsequence check (`cheap_matches`),
/// which compares with `char_equal` under smart case (case-sensitive exactly
/// when the pattern holds an ASCII capital), and an empty pattern gives an
/// answer at once. The positions are char positions of the choice in
/// strictly increasing order: the source collects them while walking back
/// through the choice and then reverses them. The score and which positions
/// are chosen are left to the name.
#[verifier::external_body]
fn skim_fuzzy_indices(choice: &str, pattern: &str) -> (r: Option<(i64, Vec<usize>)>)
    ensures
        match r {
            Some((score, idx)) => skim_match(choice@, pattern@) == Some((score, idx@)),
            None => skim_match(choice@, pattern@) is None,
        },
        r is Some <==> skim_finds(choice@, pattern@),
        r matches Some((_, idx)) ==> increasing_below(idx@, choice@.len() as int),
{
    SkimMatcherV2::default().fuzzy_indices(choice, pattern)
}

/// A connection that matches the search, with the matched char positions of
/// its name, user name and host name.
pub struct FuzzyMatchResult {
    pub conn_index: usize,
    pub score: i64,
    pub name_indices: Vec<usize>,
    pub username_indices: Vec<usize>,
    pub hostname_indices: Vec<usize>,
}

/// A match as values.
pub struct FuzzyMatchView {
    pub conn_index: usize,
    pub score: i64,
    pub name_indices: Seq<usize>,
    pub username_indices: Seq<usize>,
    pub hostname_indices: Seq<usize>,
}

impl View for FuzzyMatchResult {
    type V = FuzzyMatchView;

    open spec fn view(&self) -> FuzzyMatchView {
        FuzzyMatchView {
            conn_index: self.conn_index,
            score: self.score,
            name_indices: self.name_indices@,
            username_indices: self.username_indices@,
            hostname_indices: self.hostname_indices@,
        }
    }
}

/// The text a connection is matched against: "name user host".
pub open spec fn match_text(c: ConnectionView) -> Seq<char> {
    c.name + seq![' '] + c.username + seq![' '] + c.hostname
}

/// The positions that fall in `[lo, hi)`, counted from `lo`.
pub open spec fn positions_in(idx: Seq<usize>, lo: int, hi: int) -> Seq<usize> {
    idx.filter(|x: usize| lo <= x < hi).map_values(|x: usize| (x - lo) as usize)
}

/// The positions from `lo` on, counted from `lo`.
pub open spec fn positions_from(idx: Seq<usize>, lo: int) -> Seq<usize> {
    idx.filter(|x: usize| lo <= x).map_values(|x: usize| (x - lo) as usize)
}

/// The split of positions in `match_text` over the three fields, for a name of
/// `nl` chars and a user name of `ul` chars (the separating blanks belong to
/// no field).
pub open spec fn split_positions(idx: Seq<usize>, nl: int, ul: int) -> (
    Seq<usize>,
    Seq<usize>,
    Seq<usize>,
) {
    (positions_in(idx, 0, nl), positions_in(idx, nl + 1, nl + 1 + ul), positions_from(idx, nl + 1 + ul + 1))
}

/// A connection is found by a query: every connection by an empty query,
/// otherwise those whose "name user host" text holds the query as the skim
/// matcher compares.
pub open spec fn search_hit(c: ConnectionView, query: Seq<char>) -> bool {
    query.len() == 0 || skim_finds(match_text(c), query)
}

/// A subsequence of a part of a text is a subsequence of the whole text.
pub proof fn lemma_subsequence_in_part(part: Seq<char>, text: Seq<char>, offset: int, pattern: Seq<char>, cs: bool)
    requires
        0 <= offset,
        offset + part.len() <= text.len(),
        forall|x: int| 0 <= x < part.len() ==> text[offset + x] == part[x],
        fuzzy_subsequence(part, pattern, cs),
    ensures
        fuzzy_subsequence(text, pattern, cs),
{
    let idx = choose|idx: Seq<int>| subsequence_at(part, pattern, cs, idx);
    let moved = idx.map_values(|v: int| v + offset);
    assert forall|j: int| 0 <= j < moved.len() implies 0 <= #[trigger] moved[j] < text.len()
        && chars_match(text[moved[j]], pattern[j], cs) by {
        assert(0 <= idx[j] < part.len());
        assert(text[offset + idx[j]] == part[idx[j]]);
    }
    assert forall|j: int, k: int| 0 <= j < k < moved.len() implies #[trigger] moved[j] < #[trigger] moved[k] by {
        assert(idx[j] < idx[k]);
    }
    assert(subsequence_at(text, pattern, cs, moved));
}

/// A query found in a connection's name, user name or host name (as the skim
/// matcher compares) finds the connection.
pub proof fn lemma_field_hit(c: ConnectionView, query: Seq<char>)
    requires
        skim_finds(c.name, query) || skim_finds(c.username, query) || skim_finds(c.hostname, query),
    ensures
        search_hit(c, query),
{
    let t = match_text(c);
    let cs = has_ascii_upper(query);
    let nl = c.name.len() as int;
    let ul = c.username.len() as int;
    assert(t.len() == nl + 1 + ul + 1 + c.hostname.len());
    if skim_finds(c.name, query) {
        assert forall|x: int| 0 <= x < nl implies t[0 + x] == c.name[x] by {}
        lemma_subsequence_in_part(c.name, t, 0, query, cs);
    } else if skim_finds(c.username, query) {
        assert forall|x: int| 0 <= x < ul implies t[nl + 1 + x] == c.username[x] by {}
        lemma_subsequence_in_part(c.username, t, nl + 1, query, cs);
    } else {
        assert forall|x: int| 0 <= x < c.hostname.len() implies t[nl + 1 + ul + 1 + x] == c.hostname[x] by {}
        lemma_subsequence_in_part(c.hostname, t, nl + 1 + ul + 1, query, cs);
    }
}

/// The match of connection number `i` for a query: with an empty query every
/// connection matches with score 0 and no marked positions.
pub open spec fn match_entry(i: int, c: ConnectionView, query: Seq<char>) -> Option<FuzzyMatchView> {
    if query.len() == 0 {
        Some(
            FuzzyMatchView {
                conn_index: i as usize,
                score: 0,
                name_indices: Seq::empty(),
                username_indices: Seq::empty(),
                hostname_indices: Seq::empty(),
            },
        )
    } else {
        match skim_match(match_text(c), query) {
            Some((score, idx)) => {
                let parts = split_positions(idx, c.name.len() as int, c.username.len() as int);
                Some(
                    FuzzyMatchView {
                        conn_index: i as usize,
                        score: score,
                        name_indices: parts.0,
                        username_indices: parts.1,
                        hostname_indices: parts.2,
                    },
                )
            },
            None => None,
        }
    }
}

proof fn lemma_positions_in_push(idx: Seq<usize>, x: usize, lo: int, hi: int)
    ensures
        positions_in(idx.push(x), lo, hi) == if lo <= x < hi {
            positions_in(idx, lo, hi).push((x - lo) as usize)
        } else {
            positions_in(idx, lo, hi)
        },
{
    let p = |y: usize| lo <= y < hi;
    let f = |y: usize| (y - lo) as usize;
    idx.lemma_filter_push(x, p);
    idx.filter(p).lemma_push_map_commute(f, x);
}

proof fn lemma_positions_from_push(idx: Seq<usize>, x: usize, lo: int)
    ensures
        positions_from(idx.push(x), lo) == if lo <= x {
            positions_from(idx, lo).push((x - lo) as usize)
        } else {
            positions_from(idx, lo)
        },
{
    let p = |y: usize| lo <= y;
    let f = |y: usize| (y - lo) as usize;
    idx.lemma_filter_push(x, p);
    idx.filter(p).lemma_push_map_commute(f, x);
}

/// Positions moved on by `d`.
pub open spec fn shifted(s: Seq<usize>, d: int) -> Seq<usize> {
    s.map_values(|x: usize| (x + d) as usize)
}

/// The positions of "name user host", for a name of `nl` chars and a user
/// name of `ul` chars, without the two separating blanks.
pub open spec fn without_separators(idx: Seq<usize>, nl: int, ul: int) -> Seq<usize> {
    idx.filter(not_separator(nl, ul))
}

/// A position of "name user host" that is not one of the two separating
/// blanks.
pub open spec fn not_separator(nl: int, ul: int) -> spec_fn(usize) -> bool {
    |x: usize| x != nl && x != nl + 1 + ul
}

/// The field positions put back into positions of "name user host".
pub open spec fn rejoined(name: Seq<usize>, user: Seq<usize>, host: Seq<usize>, nl: int, ul: int) -> Seq<usize> {
    name + shifted(user, nl + 1) + shifted(host, nl + 1 + ul + 1)
}

proof fn lemma_positions_in_below(idx: Seq<usize>, lo: int, hi: int, b: int)
    requires
        forall|j: int| 0 <= j < idx.len() ==> #[trigger] idx[j] < b,
    ensures
        forall|j: int| 0 <= j < positions_in(idx, lo, hi).len() ==> #[trigger] positions_in(idx, lo, hi)[j] < b - lo,
    decreases idx.len(),
{
    if idx.len() > 0 {
        let p = idx.drop_last();
        let x = idx.last();
        assert(idx =~= p.push(x));
        lemma_positions_in_below(p, lo, hi, b);
        lemma_positions_in_push(p, x, lo, hi);
    } else {
        assert(positions_in(idx, lo, hi) =~= Seq::<usize>::empty());
    }
}

proof fn lemma_positions_from_below(idx: Seq<usize>, lo: int, b: int)
    requires
        forall|j: int| 0 <= j < idx.len() ==> #[trigger] idx[j] < b,
    ensures
        forall|j: int| 0 <= j < positions_from(idx, lo).len() ==> #[trigger] positions_from(idx, lo)[j] < b - lo,
    decreases idx.len(),
{
    if idx.len() > 0 {
        let p = idx.drop_last();
        let x = idx.last();
        assert(idx =~= p.push(x));
        lemma_positions_from_below(p, lo, b);
        lemma_positions_from_push(p, x, lo);
    } else {
        assert(positions_from(idx, lo) =~= Seq::<usize>::empty());
    }
}

proof fn lemma_shifted_push(s: Seq<usize>, x: usize, d: int)
    ensures
        shifted(s.push(x), d) == shifted(s, d).push((x + d) as usize),
{
    s.lemma_push_map_commute(|y: usize| (y + d) as usize, x);
}

/// Strictly increasing positions inside "name user host" split into
/// strictly increasing positions inside each field, and putting the fields
/// back together gives the positions without the separating blanks.
pub proof fn lemma_split_positions_sound(idx: Seq<usize>, nl: int, ul: int, hl: int)
    requires
        0 <= nl,
        0 <= ul,
        0 <= hl,
        increasing_below(idx, nl + 1 + ul + 1 + hl),
    ensures
        increasing_below(split_positions(idx, nl, ul).0, nl),
        increasing_below(split_positions(idx, nl, ul).1, ul),
        increasing_below(split_positions(idx, nl, ul).2, hl),
        rejoined(split_positions(idx, nl, ul).0, split_positions(idx, nl, ul).1, split_positions(idx, nl, ul).2, nl, ul)
            == without_separators(idx, nl, ul),
    decreases idx.len(),
{
    let us = nl + 1;
    let ue = nl + 1 + ul;
    let hs = nl + 1 + ul + 1;
    if idx.len() == 0 {
        assert(positions_in(idx, 0, nl) =~= Seq::<usize>::empty());
        assert(positions_in(idx, us, ue) =~= Seq::<usize>::empty());
        assert(positions_from(idx, hs) =~= Seq::<usize>::empty());
        assert(without_separators(idx, nl, ul) =~= Seq::<usize>::empty());
        assert(shifted(Seq::<usize>::empty(), us) =~= Seq::<usize>::empty());
        assert(shifted(Seq::<usize>::empty(), hs) =~= Seq::<usize>::empty());
        assert(rejoined(Seq::empty(), Seq::empty(), Seq::empty(), nl, ul) =~= Seq::<usize>::empty());
    } else {
        let p = idx.drop_last();
        let x = idx.last();
        assert(idx =~= p.push(x));
        assert forall|j: int| 0 <= j < p.len() implies #[trigger] p[j] < x by {
            assert(idx[j] < idx[idx.len() - 1]);
        }
        lemma_split_positions_sound(p, nl, ul, hl);
        let n0 = positions_in(p, 0, nl);
        let u0 = positions_in(p, us, ue);
        let h0 = positions_from(p, hs);
        lemma_positions_in_push(p, x, 0, nl);
        lemma_positions_in_push(p, x, us, ue);
        lemma_positions_from_push(p, x, hs);
        lemma_positions_in_below(p, 0, nl, x as int);
        lemma_positions_in_below(p, us, ue, x as int);
        lemma_positions_from_below(p, hs, x as int);
        p.lemma_filter_push(x, not_separator(nl, ul));
        let w0 = without_separators(p, nl, ul);
        assert(w0 == rejoined(n0, u0, h0, nl, ul));
        if x < nl {
            assert(u0.len() == 0 && h0.len() == 0) by {
                if u0.len() > 0 { assert(u0[0] < x - us); }
                if h0.len() > 0 { assert(h0[0] < x - hs); }
            }
            assert(u0 =~= Seq::<usize>::empty());
            assert(h0 =~= Seq::<usize>::empty());
            assert(shifted(u0, us) =~= Seq::<usize>::empty());
            assert(shifted(h0, hs) =~= Seq::<usize>::empty());
            assert(rejoined(n0.push(x), u0, h0, nl, ul) =~= rejoined(n0, u0, h0, nl, ul).push(x));
        } else if x == nl || x == ue {
            assert(without_separators(idx, nl, ul) == w0);
        } else if x < ue {
            assert(h0.len() == 0) by {
                if h0.len() > 0 { assert(h0[0] < x - hs); }
            }
            assert(h0 =~= Seq::<usize>::empty());
            assert(shifted(h0, hs) =~= Seq::<usize>::empty());
            let y = (x - us) as usize;
            lemma_shifted_push(u0, y, us);
            assert((y + us) as usize == x);
            assert(rejoined(n0, u0.push(y), h0, nl, ul) =~= rejoined(n0, u0, h0, nl, ul).push(x));
        } else {
            let y = (x - hs) as usize;
            lemma_shifted_push(h0, y, hs);
            assert((y + hs) as usize == x);
            assert(rejoined(n0, u0, h0.push(y), nl, ul) =~= rejoined(n0, u0, h0, nl, ul).push(x));
        }
    }
}

/// The highlighted positions of a match lie inside their fields in
/// increasing order, and for a non-empty query, put back together, they are
/// the matcher's positions in "name user host" without the separating blanks.
pub open spec fn highlights_sound(m: FuzzyMatchView, c: ConnectionView, query: Seq<char>) -> bool {
    &&& increasing_below(m.name_indices, c.name.len() as int)
    &&& increasing_below(m.username_indices, c.username.len() as int)
    &&& increasing_below(m.hostname_indices, c.hostname.len() as int)
    &&& query.len() > 0 ==> match skim_match(match_text(c), query) {
        Some((_, idx)) => rejoined(
            m.name_indices,
            m.username_indices,
            m.hostname_indices,
            c.name.len() as int,
            c.username.len() as int,
        ) == without_separators(idx, c.name.len() as int, c.username.len() as int),
        None => false,
    }
}

/// Splits matched positions of "name user host" into the positions within
/// each field, in order, each counted from the start of its field.
pub fn split_match_indices(indices: &Vec<usize>, name_len: usize, user_len: usize) -> (r: (
    Vec<usize>,
    Vec<usize>,
    Vec<usize>,
))
    requires
        name_len + 1 + user_len + 1 <= usize::MAX,
    ensures
        (r.0@, r.1@, r.2@) == split_positions(indices@, name_len as int, user_len as int),
{
    let user_start = name_len + 1;
    let user_end = user_start + user_len;
    let host_start = user_end + 1;
    let mut name_idx: Vec<usize> = Vec::new();
    let mut user_idx: Vec<usize> = Vec::new();
    let mut host_idx: Vec<usize> = Vec::new();
    let n = indices.len();
    let mut k: usize = 0;
    while k < n
        invariant
            n == indices@.len(),
            k <= n,
            user_start == name_len + 1,
            user_end == user_start + user_len,
            host_start == user_end + 1,
            name_idx@ == positions_in(indices@.take(k as int), 0, name_len as int),
            user_idx@ == positions_in(indices@.take(k as int), user_start as int, user_end as int),
            host_idx@ == positions_from(indices@.take(k as int), host_start as int),
        decreases n - k,
    {
        let idx = indices[k];
        proof {
            assert(indices@.take(k + 1) =~= indices@.take(k as int).push(idx));
            lemma_positions_in_push(indices@.take(k as int), idx, 0, name_len as int);
            lemma_positions_in_push(indices@.take(k as int), idx, user_start as int, user_end as int);
            lemma_positions_from_push(indices@.take(k as int), idx, host_start as int);
        }
        if idx < name_len {
            name_idx.push(idx);
        } else if idx >= user_start && idx < user_end {
            user_idx.push(idx - user_start);
        } else if idx >= host_start {
            host_idx.push(idx - host_start);
        }
        k = k + 1;
    }
    assert(indices@.take(n as int) =~= indices@);
    (name_idx, user_idx, host_idx)
}

/// Matches connection number `index` against a query: every connection
/// matches an empty query with score 0; otherwise the skim matcher decides on
/// "name user host" and the matched positions are split over the fields.
pub fn match_connection(index: usize, conn: &Connection, query: &str) -> (r: Option<FuzzyMatchResult>)
    ensures
        match r {
            Some(m) => match_entry(index as int, conn@, query@) == Some(m@),
            None => match_entry(index as int, conn@, query@) is None,
        },
        r is Some <==> search_hit(conn@, query@),
        r matches Some(m) ==> highlights_sound(m@, conn@, query@),
{
    if query.unicode_len() == 0 {
        return Some(
            FuzzyMatchResult {
                conn_index: index,
                score: 0,
                name_indices: Vec::new(),
                username_indices: Vec::new(),
                hostname_indices: Vec::new(),
            },
        );
    }
    let mut combined = conn.name.clone();
    push_char(&mut combined, ' ');
    combined.append(conn.username.as_str());
    push_char(&mut combined, ' ');
    combined.append(conn.hostname.as_str());
    assert(combined@ =~= match_text(conn@));
    // The combined length bounds the field offsets below.
    let total = combined.as_str().unicode_len();
    let name_len = conn.name.as_str().unicode_len();
    let user_len = conn.username.as_str().unicode_len();
    match skim_fuzzy_indices(combined.as_str(), query) {
        Some((score, indices)) => {
            let (name_idx, user_idx, host_idx) = split_match_indices(&indices, name_len, user_len);
            proof {
                lemma_split_positions_sound(indices@, name_len as int, user_len as int, conn@.hostname.len() as int);
            }
            Some(
                FuzzyMatchResult {
                    conn_index: index,
                    score,
                    name_indices: name_idx,
                    username_indices: user_idx,
                    hostname_indices: host_idx,
                },
            )
        },
        None => None,
    }
}

} // verus!
