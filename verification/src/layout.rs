//! Screen geometry and what each row of the main screen looks like.
use vstd::prelude::*;
use crate::app::{App, AppView, AppFocus, well_formed, uses_proxy, serves_as_proxy, selected_connection};
use crate::connection::ConnectionView;
use crate::modals::keys::join_text;
use crate::number::{format_i32, decimal_text};
use crate::width::{display_width, text_columns};
use crate::text::min_int;

verus! {

/// A rectangle of terminal cells.
#[derive(PartialEq, Eq, Structural, Clone, Copy, Debug)]
pub struct Rect {
    pub x: u16,
    pub y: u16,
    pub width: u16,
    pub height: u16,
}

impl Rect {
    /// A rectangle at (x, y), its width and height cut so that it ends within
    /// the coordinate range (as ratatui's `Rect::new` does).
    pub fn new(x: u16, y: u16, width: u16, height: u16) -> (r: Rect)
        ensures
            r == (Rect {
                x: x,
                y: y,
                width: if width > u16::MAX - x { (u16::MAX - x) as u16 } else { width },
                height: if height > u16::MAX - y { (u16::MAX - y) as u16 } else { height },
            }),
    {
        let max_width = u16::MAX - x;
        let max_height = u16::MAX - y;
        Rect {
            x,
            y,
            width: if width > max_width { max_width } else { width },
            height: if height > max_height { max_height } else { height },
        }
    }
}

/// The size of a centered box along one axis: `percent` of the total (cut to
/// 16 bits), at least `min`, at most the total.
pub open spec fn box_span(total: u16, percent: u16, min: u16) -> u16 {
    let raw = ((total as u32 * percent as u32 / 100) as u16);
    let at_least = if raw >= min { raw } else { min };
    if at_least <= total { at_least } else { total }
}

/// The box of `percent_x` by `percent_y` of `r`, at least `min_w` by `min_h`
/// but never larger than `r`, centered in `r`.
pub open spec fn centered_box(percent_x: u16, percent_y: u16, min_w: u16, min_h: u16, r: Rect) -> Rect {
    let w = box_span(r.width, percent_x, min_w);
    let h = box_span(r.height, percent_y, min_h);
    let x = (r.x + (r.width - w) / 2) as u16;
    let y = (r.y + (r.height - h) / 2) as u16;
    Rect {
        x: x,
        y: y,
        width: if w > u16::MAX - x { (u16::MAX - x) as u16 } else { w },
        height: if h > u16::MAX - y { (u16::MAX - y) as u16 } else { h },
    }
}

fn span_of(total: u16, percent: u16, min: u16) -> (r: u16)
    ensures
        r == box_span(total, percent, min),
{
    let t = total as u32;
    let q = percent as u32;
    assert(t * q <= 65535 * 65535) by (nonlinear_arith)
        requires
            t <= 65535,
            q <= 65535,
    ;
    let raw = (t * q / 100) as u16;
    let at_least = if raw >= min { raw } else { min };
    if at_least <= total { at_least } else { total }
}

/// Centers a box in `r` (see `centered_box`) for a dialog.
pub fn center_rect_at_least(percent_x: u16, percent_y: u16, min_w: u16, min_h: u16, r: Rect) -> (c: Rect)
    requires
        r.x + (r.width - box_span(r.width, percent_x, min_w)) / 2 <= u16::MAX,
        r.y + (r.height - box_span(r.height, percent_y, min_h)) / 2 <= u16::MAX,
    ensures
        c == centered_box(percent_x, percent_y, min_w, min_h, r),
        c.width <= r.width,
        c.height <= r.height,
{
    let w = span_of(r.width, percent_x, min_w);
    let h = span_of(r.height, percent_y, min_h);
    let x = r.x + (r.width - w) / 2;
    let y = r.y + (r.height - h) / 2;
    Rect::new(x, y, w, h)
}

/// Where the cursor of a one-line text field goes: the text scrolls left by
/// `scroll_x` columns so that the cursor, `offset` columns into the field,
/// stays visible.
pub struct CursorPlacement {
    pub scroll_x: u16,
    pub offset: u16,
}

/// The column of the cursor before the char at `cursor` (at the end when the
/// text is shorter), cut to 16 bits.
pub open spec fn cursor_column(text: Seq<char>, cursor: int) -> u16 {
    (text_columns(text.take(min_int(cursor, text.len() as int))) as u16)
}

/// Places the cursor of a text field `inner_width` columns wide.
pub fn cursor_placement(text: &str, cursor: usize, inner_width: u16) -> (r: CursorPlacement)
    ensures
        ({
            let col = cursor_column(text@, cursor as int);
            let room = if inner_width >= 1 { inner_width - 1 } else { 0 };
            &&& r.scroll_x as int == if col >= room { col - room } else { 0 }
            &&& r.offset as int == col - r.scroll_x
        }),
{
    let n = text.unicode_len();
    let k = if cursor < n { cursor } else { n };
    let col = display_width(text.substring_char(0, k)) as u16;
    let room = if inner_width >= 1 { inner_width - 1 } else { 0 };
    let scroll_x = if col >= room { col - room } else { 0 };
    CursorPlacement { scroll_x, offset: col - scroll_x }
}

/// The blanks that push the "Proxy" mark of a list row to the right edge, or
/// nothing when the mark does not fit.
pub fn proxy_indicator_padding(content_width: usize, indicator_width: usize, inner_width: usize) -> (r: Option<usize>)
    ensures
        content_width + indicator_width <= inner_width ==> r == Some((inner_width - content_width - indicator_width) as usize),
        content_width + indicator_width > inner_width ==> r is None,
{
    if indicator_width <= inner_width && content_width <= inner_width - indicator_width {
        Some(inner_width - content_width - indicator_width)
    } else {
        None
    }
}

/// How a row of the connection list is colored.
#[derive(PartialEq, Eq, Structural, Clone, Copy, Debug)]
pub enum RowTone {
    /// The row under the cursor while the list has focus.
    Selected,
    /// A connection that jumps through others.
    UsesProxy,
    /// A connection others jump through.
    ProxyHost,
    /// Any other connection.
    Plain,
}

/// The tone of row `i` of the match list.
pub open spec fn tone_of(a: AppView, i: int) -> RowTone {
    let id = a.connections[a.filtered_connections[i].conn_index as int].id;
    if i == a.selected_connection_index && a.focus == AppFocus::List {
        RowTone::Selected
    } else if uses_proxy(a.proxy_destinations, id) {
        RowTone::UsesProxy
    } else if serves_as_proxy(a.proxy_hosts, id) {
        RowTone::ProxyHost
    } else {
        RowTone::Plain
    }
}

/// The tone of row `i` of the match list.
pub fn row_tone(app: &App, i: usize) -> (r: RowTone)
    requires
        well_formed(app@),
        i < app@.filtered_connections.len(),
    ensures
        r == tone_of(app@, i as int),
{
    let k = app.filtered_connections[i].conn_index;
    assert(app@.filtered_connections[i as int].conn_index == k);
    let c = &app.connections[k];
    if i == app.selected_connection_index && app.focus == AppFocus::List {
        RowTone::Selected
    } else if app.has_proxy(c) {
        RowTone::UsesProxy
    } else if app.is_proxy(c) {
        RowTone::ProxyHost
    } else {
        RowTone::Plain
    }
}

/// For each of the first `len` char positions of a field, whether the search
/// matched it (it is shown highlighted).
pub fn marked_positions(len: usize, indices: &Vec<usize>) -> (r: Vec<bool>)
    ensures
        r@.len() == len,
        forall|j: int| 0 <= j < len ==> r@[j] == indices@.contains(j as usize),
{
    let mut marks: Vec<bool> = Vec::new();
    let m = indices.len();
    let mut j: usize = 0;
    while j < len
        invariant
            j <= len,
            m == indices@.len(),
            marks@.len() == j,
            forall|q: int| 0 <= q < j ==> marks@[q] == indices@.contains(q as usize),
        decreases len - j,
    {
        let mut found = false;
        let mut t: usize = 0;
        while t < m
            invariant
                t <= m,
                m == indices@.len(),
                found == exists|u: int| 0 <= u < t && indices@[u] == j,
            decreases m - t,
        {
            if indices[t] == j {
                found = true;
            }
            t = t + 1;
        }
        marks.push(found);
        j = j + 1;
    }
    marks
}

/// The title of the chosen connection's history panel.
pub open spec fn history_title(a: AppView) -> Seq<char> {
    match selected_connection(a) {
        Some(k) => "History – "@ + a.connections[k].name,
        None => "History"@,
    }
}

/// The title of the chosen connection's history panel: "History – name", or
/// "History" without a chosen connection.
pub fn connection_history_title(app: &App) -> (r: String)
    requires
        well_formed(app@),
    ensures
        r@ == history_title(app@),
{
    if app.selected_connection_index < app.filtered_connections.len() {
        let k = app.filtered_connections[app.selected_connection_index].conn_index;
        assert(app@.filtered_connections[app.selected_connection_index as int].conn_index == k);
        join_text("History – ", app.connections[k].name.as_str())
    } else {
        String::from_str("History")
    }
}

/// The port shown for a connection: its number, or "22 (default)".
pub fn port_label(port: Option<i32>) -> (r: String)
    ensures
        r@ == match port {
            Some(p) => decimal_text(p as int),
            None => "22 (default)"@,
        },
{
    match port {
        Some(p) => format_i32(p),
        None => String::from_str("22 (default)"),
    }
}

} // verus!
