//! What the history panel shows: exit code labels and the column layout of
//! its rows.
use vstd::prelude::*;
use crate::connection::{Connection, ConnectionView, History, HistoryView};
use crate::modals::keys::join_text;
use crate::text::str_eq;
use crate::width::{display_width, text_columns, truncate_to_cols, truncated};
use crate::app::{connection_views, history_views};

verus! {

/// The words shown for a session's exit code.
pub open spec fn exit_label(code: Seq<char>) -> Seq<char> {
    if code == "0"@ {
        "Success"@
    } else if code == "1"@ {
        "General error"@
    } else if code == "2"@ {
        "Invalid usage"@
    } else if code == "126"@ {
        "Permission denied"@
    } else if code == "127"@ {
        "Command not found"@
    } else if code == "130"@ {
        "Interrupted"@
    } else if code == "255"@ {
        "Connection failed"@
    } else if code == "unknown"@ {
        "Signal killed"@
    } else {
        "Unknown error"@
    }
}

/// The exit text of a session: "[code] label".
pub open spec fn exit_text_of(code: Seq<char>) -> Seq<char> {
    "["@ + code + "] "@ + exit_label(code)
}

/// The words shown for an exit code: what ssh's common exit codes mean, and
/// "Signal killed" for a session that ended without a code.
pub fn exit_code_label(code: &str) -> (r: &'static str)
    ensures
        r@ == exit_label(code@),
{
    if str_eq(code, "0") {
        "Success"
    } else if str_eq(code, "1") {
        "General error"
    } else if str_eq(code, "2") {
        "Invalid usage"
    } else if str_eq(code, "126") {
        "Permission denied"
    } else if str_eq(code, "127") {
        "Command not found"
    } else if str_eq(code, "130") {
        "Interrupted"
    } else if str_eq(code, "255") {
        "Connection failed"
    } else if str_eq(code, "unknown") {
        "Signal killed"
    } else {
        "Unknown error"
    }
}

/// The exit text shown for a session, "[code] label".
pub fn exit_text(code: &str) -> (r: String)
    ensures
        r@ == exit_text_of(code@),
{
    let mut out = join_text("[", code);
    out.append("] ");
    out.append(exit_code_label(code));
    out
}

/// Whether an exit code reads as success (it is shown in green).
pub fn exit_is_success(code: &str) -> (r: bool)
    ensures
        r == (code@ == "0"@),
{
    str_eq(code, "0")
}

/// The widest exit text among history entries, in columns (0 for none).
pub open spec fn max_exit_columns(entries: Seq<HistoryView>) -> int
    decreases entries.len(),
{
    if entries.len() == 0 {
        0
    } else {
        let rest = max_exit_columns(entries.drop_last());
        let w = text_columns(exit_text_of(entries.last().exit_code)) as int;
        if w > rest { w } else { rest }
    }
}

/// The widest exit text is at least as wide as the exit text of every entry,
/// and is as wide as the exit text of one of them when there are entries.
pub proof fn lemma_max_exit_columns_is_widest(entries: Seq<HistoryView>)
    ensures
        forall|k: int| 0 <= k < entries.len() ==> text_columns(exit_text_of(#[trigger] entries[k].exit_code))
            <= max_exit_columns(entries),
        entries.len() > 0 ==> exists|k: int| 0 <= k < entries.len() && text_columns(
            exit_text_of(#[trigger] entries[k].exit_code),
        ) == max_exit_columns(entries),
        entries.len() == 0 ==> max_exit_columns(entries) == 0,
    decreases entries.len(),
{
    if entries.len() > 0 {
        let p = entries.drop_last();
        lemma_max_exit_columns_is_widest(p);
        let last = entries.len() - 1;
        assert forall|k: int| 0 <= k < entries.len() implies text_columns(exit_text_of(#[trigger] entries[k].exit_code))
            <= max_exit_columns(entries) by {
            if k < last {
                assert(entries[k] == p[k]);
            }
        }
        let w = text_columns(exit_text_of(entries[last].exit_code)) as int;
        if w > max_exit_columns(p) || p.len() == 0 {
            assert(text_columns(exit_text_of(entries[last].exit_code)) == max_exit_columns(entries));
        } else {
            let k = choose|k: int| 0 <= k < p.len() && text_columns(exit_text_of(#[trigger] p[k].exit_code))
                == max_exit_columns(p);
            assert(entries[k] == p[k]);
            assert(text_columns(exit_text_of(entries[k].exit_code)) == max_exit_columns(entries));
        }
    }
}

/// The widest exit text among the entries, so that all exit texts can start
/// at one column.
pub fn max_exit_width(entries: &Vec<History>) -> (r: usize)
    ensures
        r == max_exit_columns(history_views(entries@)),
        forall|k: int| 0 <= k < entries@.len() ==> text_columns(exit_text_of(#[trigger] entries@[k].exit_code@))
            <= r,
        entries@.len() > 0 ==> exists|k: int| 0 <= k < entries@.len() && text_columns(
            exit_text_of(#[trigger] entries@[k].exit_code@),
        ) == r,
{
    let mut best: usize = 0;
    let n = entries.len();
    let mut i: usize = 0;
    while i < n
        invariant
            n == entries@.len(),
            i <= n,
            best == max_exit_columns(history_views(entries@).take(i as int)),
        decreases n - i,
    {
        let t = exit_text(entries[i].exit_code.as_str());
        let w = display_width(t.as_str());
        proof {
            let hv = history_views(entries@);
            assert(hv.take(i + 1).drop_last() =~= hv.take(i as int));
            assert(hv.take(i + 1).last() == entries@[i as int]@);
        }
        if w > best {
            best = w;
        }
        i = i + 1;
    }
    assert(history_views(entries@).take(n as int) =~= history_views(entries@));
    proof {
        let hv = history_views(entries@);
        lemma_max_exit_columns_is_widest(hv);
        assert forall|k: int| 0 <= k < entries@.len() implies text_columns(exit_text_of(#[trigger] entries@[k].exit_code@))
            <= best by {
            assert(hv[k] == entries@[k]@);
            assert(text_columns(exit_text_of(hv[k].exit_code)) <= max_exit_columns(hv));
        }
        if n > 0 {
            let k = choose|k: int| 0 <= k < hv.len() && text_columns(exit_text_of(#[trigger] hv[k].exit_code))
                == max_exit_columns(hv);
            assert(hv[k] == entries@[k]@);
            assert(text_columns(exit_text_of(entries@[k].exit_code@)) == best);
        }
    }
    best
}

/// The column at which exit texts start in a panel `inner_width` columns
/// wide: right-aligned by the widest one (0 when they do not fit).
pub fn exit_column(inner_width: usize, entries: &Vec<History>) -> (r: usize)
    ensures
        r as int == if inner_width >= max_exit_columns(history_views(entries@)) {
            inner_width - max_exit_columns(history_views(entries@))
        } else {
            0
        },
{
    let w = max_exit_width(entries);
    if inner_width >= w { inner_width - w } else { 0 }
}

/// The layout of a row of the recent-sessions panel: the connection name (cut
/// to fit before the time column), the blanks after it, and the blanks after
/// the time.
pub struct GlobalItemLayout {
    pub name: String,
    pub name_gap: usize,
    pub time_gap: usize,
}

/// The blanks that fill from a text ending at column `end` to column
/// `target`: at least one.
pub open spec fn gap(target: int, end: int) -> int {
    if target > end { target - end } else { 1 }
}

/// The name shown in a recent-sessions row and its columns: the full name
/// when it fits before the time column (a third of the panel, less one
/// column), else the name cut to that width.
pub open spec fn shown_name(name: Seq<char>, inner_width: int) -> (Seq<char>, int) {
    let time_col = inner_width / 3;
    let max_name = if time_col >= 1 { time_col - 1 } else { 0 };
    if text_columns(name) > max_name {
        truncated(name, max_name)
    } else {
        (name, text_columns(name) as int)
    }
}

/// Lays out a row of the recent-sessions panel: name, then the time pinned at
/// a third of the panel, then the exit text starting at `exit_col`.
pub fn global_item_layout(conn_name: &str, time_text: &str, inner_width: usize, exit_col: usize) -> (r: GlobalItemLayout)
    ensures
        r.name@ == shown_name(conn_name@, inner_width as int).0,
        r.name_gap as int == gap(inner_width as int / 3, shown_name(conn_name@, inner_width as int).1),
        r.time_gap as int == gap(exit_col as int, inner_width as int / 3 + text_columns(time_text@)),
{
    let time_col = inner_width / 3;
    let max_name_cols = if time_col >= 1 { time_col - 1 } else { 0 };
    let name_w = display_width(conn_name);
    let (display_name, display_w) = if name_w > max_name_cols {
        truncate_to_cols(conn_name, max_name_cols)
    } else {
        (String::from_str(conn_name), name_w)
    };
    let name_gap = if time_col > display_w { time_col - display_w } else { 1 };
    let time_w = display_width(time_text);
    let time_gap = if exit_col > time_col && exit_col - time_col > time_w {
        exit_col - time_col - time_w
    } else {
        1
    };
    GlobalItemLayout { name: display_name, name_gap, time_gap }
}

/// The blanks between the time and the exit text in a row of one
/// connection's history.
pub fn connection_item_gap(time_text: &str, exit_col: usize) -> (r: usize)
    ensures
        r as int == gap(exit_col as int, text_columns(time_text@) as int),
{
    let time_w = display_width(time_text);
    if exit_col > time_w { exit_col - time_w } else { 1 }
}

/// The name shown for a session's connection: that of the first stored
/// connection with its id, or "Unknown".
pub open spec fn session_connection_name(conns: Seq<ConnectionView>, connection_id: i32) -> Seq<char>
    decreases conns.len(),
{
    if conns.len() == 0 {
        "Unknown"@
    } else if conns[0].id == Some(connection_id) {
        conns[0].name
    } else {
        session_connection_name(conns.drop_first(), connection_id)
    }
}

/// The name shown for the connection a session belongs to.
pub fn connection_name_for(conns: &Vec<Connection>, connection_id: i32) -> (r: String)
    ensures
        r@ == session_connection_name(connection_views(conns@), connection_id),
{
    let n = conns.len();
    let mut i: usize = 0;
    assert(connection_views(conns@).skip(0) =~= connection_views(conns@));
    while i < n
        invariant
            n == conns@.len(),
            i <= n,
            session_connection_name(connection_views(conns@), connection_id) == session_connection_name(
                connection_views(conns@).skip(i as int),
                connection_id,
            ),
        decreases n - i,
    {
        let ghost rest = connection_views(conns@).skip(i as int);
        assert(rest[0] == conns@[i as int]@);
        assert(rest.drop_first() =~= connection_views(conns@).skip(i + 1));
        if conns[i].id == Some(connection_id) {
            return conns[i].name.clone();
        }
        i = i + 1;
    }
    assert(connection_views(conns@).skip(n as int).len() == 0);
    String::from_str("Unknown")
}

} // verus!
