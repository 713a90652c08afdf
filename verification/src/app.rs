//! The state of the main screen: the search, the ranked list of matching
//! connections, the session histories and the dialogs, with the rules that
//! change it.
use vstd::prelude::*;
use std::collections::HashSet;
use crate::connection::{Connection, ConnectionView, History, HistoryView};
use crate::fuzzy::{FuzzyMatchResult, FuzzyMatchView, match_connection, match_entry, search_hit, skim_finds, lemma_field_hit, highlights_sound};
use crate::modals::create_connection::{CreateConnectionModal, CreateConnectionView, ConnectionDraft, blank_form};
use crate::modals::delete_connection::{DeleteConnectionModal, DeleteConnectionView, closed_dialog};
use crate::modals::keys::{KeysModal, KeysView, join_text};
use crate::modals::proxy_jumps::{ProxyJumpsModal, ProxyJumpsView};
use crate::modals::selection_in_bounds;

verus! {

broadcast use vstd::std_specs::hash::group_hash_axioms;

/// Which part of the main screen takes the keys.
#[derive(PartialEq, Eq, Structural, Clone, Copy, Debug)]
pub enum AppFocus {
    Search,
    List,
}

/// The whole state of the main screen.
pub struct App {
    pub input: String,
    pub input_cursor: usize,
    pub messages: Vec<String>,
    pub create_connection_modal: CreateConnectionModal,
    pub delete_connection_modal: DeleteConnectionModal,
    pub keys_modal: KeysModal,
    pub proxy_jumps_modal: ProxyJumpsModal,
    /// Ids of connections that other connections jump through.
    pub proxy_hosts: HashSet<i32>,
    /// Ids of connections that jump through other connections.
    pub proxy_destinations: HashSet<i32>,
    pub connections: Vec<Connection>,
    pub filtered_connections: Vec<FuzzyMatchResult>,
    pub pending_ssh_connection: Option<Connection>,
    pub selected_connection_index: usize,
    pub show_help_modal: bool,
    pub recent_history: Vec<History>,
    pub history_scroll: usize,
    pub connection_history: Vec<History>,
    pub connection_history_scroll: usize,
    pub focus: AppFocus,
    /// The user name a fresh connection form starts with.
    pub default_username: String,
}

/// The state of the main screen as values.
pub struct AppView {
    pub input: Seq<char>,
    pub input_cursor: usize,
    pub messages: Seq<Seq<char>>,
    pub create_connection_modal: CreateConnectionView,
    pub delete_connection_modal: DeleteConnectionView,
    pub keys_modal: KeysView,
    pub proxy_jumps_modal: ProxyJumpsView,
    pub proxy_hosts: Set<i32>,
    pub proxy_destinations: Set<i32>,
    pub connections: Seq<ConnectionView>,
    pub filtered_connections: Seq<FuzzyMatchView>,
    pub pending_ssh_connection: Option<ConnectionView>,
    pub selected_connection_index: usize,
    pub show_help_modal: bool,
    pub recent_history: Seq<HistoryView>,
    pub history_scroll: usize,
    pub connection_history: Seq<HistoryView>,
    pub connection_history_scroll: usize,
    pub focus: AppFocus,
    pub default_username: Seq<char>,
}

/// The views of connections.
pub open spec fn connection_views(v: Seq<Connection>) -> Seq<ConnectionView> {
    v.map_values(|c: Connection| c@)
}

/// The views of history entries.
pub open spec fn history_views(v: Seq<History>) -> Seq<HistoryView> {
    v.map_values(|h: History| h@)
}

/// The views of matches.
pub open spec fn match_views(v: Seq<FuzzyMatchResult>) -> Seq<FuzzyMatchView> {
    v.map_values(|m: FuzzyMatchResult| m@)
}

/// The views of messages.
pub open spec fn text_views(v: Seq<String>) -> Seq<Seq<char>> {
    v.map_values(|s: String| s@)
}

impl View for App {
    type V = AppView;

    open spec fn view(&self) -> AppView {
        AppView {
            input: self.input@,
            input_cursor: self.input_cursor,
            messages: text_views(self.messages@),
            create_connection_modal: self.create_connection_modal@,
            delete_connection_modal: self.delete_connection_modal@,
            keys_modal: self.keys_modal@,
            proxy_jumps_modal: self.proxy_jumps_modal@,
            proxy_hosts: self.proxy_hosts@,
            proxy_destinations: self.proxy_destinations@,
            connections: connection_views(self.connections@),
            filtered_connections: match_views(self.filtered_connections@),
            pending_ssh_connection: match self.pending_ssh_connection {
                Some(c) => Some(c@),
                None => None,
            },
            selected_connection_index: self.selected_connection_index,
            show_help_modal: self.show_help_modal,
            recent_history: history_views(self.recent_history@),
            history_scroll: self.history_scroll,
            connection_history: history_views(self.connection_history@),
            connection_history_scroll: self.connection_history_scroll,
            focus: self.focus,
            default_username: self.default_username@,
        }
    }
}

/// The state every rule keeps: each match names a stored connection, the
/// dialog list cursors are on their lists, the form's field is one of its
/// seven positions, and the search cursor lies within the search text.
pub open spec fn well_formed(a: AppView) -> bool {
    &&& matches_in_bounds(a)
    &&& dialogs_well_formed(a)
}

/// Each match names a stored connection.
pub open spec fn matches_in_bounds(a: AppView) -> bool {
    forall|k: int| 0 <= k < a.filtered_connections.len() ==>
        (#[trigger] a.filtered_connections[k]).conn_index < a.connections.len()
}

/// The dialog list cursors are on their lists, the form's field is one of its
/// seven positions, and the search cursor lies within the search text.
pub open spec fn dialogs_well_formed(a: AppView) -> bool {
    &&& selection_in_bounds(a.proxy_jumps_modal.selected, a.proxy_jumps_modal.available_connections.len() as int)
    &&& selection_in_bounds(a.keys_modal.selected, a.keys_modal.keys.len() as int)
    &&& a.create_connection_modal.active_field <= 6
    &&& a.input_cursor <= a.input.len()
}

/// A connection jumps through others.
pub open spec fn uses_proxy(dests: Set<i32>, id: Option<i32>) -> bool {
    match id {
        Some(i) => dests.contains(i),
        None => false,
    }
}

/// A connection is a jump host for others.
pub open spec fn serves_as_proxy(hosts: Set<i32>, id: Option<i32>) -> bool {
    match id {
        Some(i) => hosts.contains(i),
        None => false,
    }
}

/// The tier by which equally scored matches are listed: plain connections
/// first (0), then those that use a jump host (1), then jump hosts (2), then
/// those that are both (3).
pub open spec fn proxy_tier(a: AppView, k: int) -> int {
    let id = a.connections[k].id;
    (if uses_proxy(a.proxy_destinations, id) { 1int } else { 0int }) + (if serves_as_proxy(a.proxy_hosts, id) {
        2int
    } else {
        0int
    })
}

/// Match `x` is listed before match `y`: higher score first, then lower tier,
/// then the connection stored first (the list order is otherwise kept).
pub open spec fn ranks_before(a: AppView, x: FuzzyMatchView, y: FuzzyMatchView) -> bool {
    let tx = proxy_tier(a, x.conn_index as int);
    let ty = proxy_tier(a, y.conn_index as int);
    x.score > y.score || (x.score == y.score && (tx < ty || (tx == ty && x.conn_index < y.conn_index)))
}

/// The matches of the first `n` stored connections for a query, in storage
/// order.
pub open spec fn candidates_upto(conns: Seq<ConnectionView>, query: Seq<char>, n: int) -> Seq<FuzzyMatchView> {
    conns.map(|i: int, c: ConnectionView| match_entry(i, c, query)).take(n).filter_map(
        |o: Option<FuzzyMatchView>| o,
    )
}

/// The matches of all stored connections for the current search text.
pub open spec fn candidates(a: AppView) -> Seq<FuzzyMatchView> {
    candidates_upto(a.connections, a.input, a.connections.len() as int)
}

/// Each match in `s` is listed before every later one.
pub open spec fn sorted_by_rank(a: AppView, s: Seq<FuzzyMatchView>) -> bool {
    forall|i: int, j: int| 0 <= i < j < s.len() ==> ranks_before(a, #[trigger] s[i], #[trigger] s[j])
}

/// `s` lists exactly the matches of the search, each once, in rank order.
pub open spec fn ranked_matches(a: AppView, s: Seq<FuzzyMatchView>) -> bool {
    &&& sorted_by_rank(a, s)
    &&& s.len() == candidates(a).len()
    &&& forall|x: FuzzyMatchView| s.contains(x) <==> candidates(a).contains(x)
}

/// The list cursor kept on a list of `len` items (0 on an empty list).
pub open spec fn clamped_index(i: usize, len: int) -> usize {
    if len == 0 {
        0
    } else if i >= len {
        (len - 1) as usize
    } else {
        i
    }
}

/// Some match in `s` is for stored connection number `j`.
pub open spec fn lists_connection(s: Seq<FuzzyMatchView>, j: int) -> bool {
    exists|x: FuzzyMatchView| s.contains(x) && x.conn_index == j
}

/// The matches list exactly the stored connections that the search finds.
pub open spec fn lists_search_hits(a: AppView) -> bool {
    forall|j: int|
        #![trigger lists_connection(a.filtered_connections, j)]
        #![trigger search_hit(a.connections[j], a.input)]
        0 <= j < a.connections.len() ==> (lists_connection(a.filtered_connections, j) <==> search_hit(
            a.connections[j],
            a.input,
        ))
}

/// Every match highlights positions inside the fields of its connection, in
/// order, that put back together are the matcher's positions (see
/// `highlights_sound`).
pub open spec fn highlights_in_fields(a: AppView) -> bool {
    forall|k: int|
        0 <= k < a.filtered_connections.len() ==> highlights_sound(
            #[trigger] a.filtered_connections[k],
            a.connections[a.filtered_connections[k].conn_index as int],
            a.input,
        )
}

/// `post` is `pre` with the match list recomputed for the current search and
/// the list cursor kept on it.
pub open spec fn filter_refreshed(pre: AppView, post: AppView) -> bool {
    &&& ranked_matches(pre, post.filtered_connections)
    &&& lists_search_hits(post)
    &&& highlights_in_fields(post)
    &&& post == AppView {
        filtered_connections: post.filtered_connections,
        selected_connection_index: clamped_index(
            pre.selected_connection_index,
            post.filtered_connections.len() as int,
        ),
        ..pre
    }
}

/// A scroll position kept within a list of `len` items.
pub open spec fn clamped_scroll(s: usize, len: int) -> usize {
    if len == 0 {
        0
    } else if s > len - 1 {
        (len - 1) as usize
    } else {
        s
    }
}

/// A position moved back by `step`, stopping at 0.
pub open spec fn scrolled_up(s: usize, step: usize) -> usize {
    if s >= step {
        (s - step) as usize
    } else {
        0
    }
}

/// A position moved on by `step`, stopping at the last of `len` items.
pub open spec fn scrolled_down(s: usize, step: usize, len: int) -> usize {
    clamped_scroll((s + step) as usize, len)
}

/// The index of the stored connection under the list cursor, if any.
pub open spec fn selected_connection(a: AppView) -> Option<int> {
    if a.selected_connection_index < a.filtered_connections.len() {
        Some(a.filtered_connections[a.selected_connection_index as int].conn_index as int)
    } else {
        None
    }
}

/// The app after the history of the chosen connection was read again: empty
/// (scrolled to the top) without a chosen connection or when it has no id,
/// the read entries when the read worked, else the old ones; the scroll is
/// kept on the list.
pub open spec fn connection_history_refreshed(a: AppView, fetched: Option<Seq<HistoryView>>) -> AppView {
    match selected_connection(a) {
        None => AppView { connection_history: Seq::empty(), connection_history_scroll: 0, ..a },
        Some(k) => {
            let h = match a.connections[k].id {
                Some(_) => match fetched {
                    Some(f) => f,
                    None => a.connection_history,
                },
                None => Seq::empty(),
            };
            AppView {
                connection_history: h,
                connection_history_scroll: clamped_scroll(a.connection_history_scroll, h.len() as int),
                ..a
            }
        },
    }
}

/// The message that follows writing a connection: `Ok(name)` with the stored
/// connection's name, `Err(e)` with the store's error.
pub open spec fn submission_message(editing: bool, outcome: Result<Seq<char>, Seq<char>>) -> Seq<char> {
    match outcome {
        Ok(name) => if editing {
            "Updated connection: "@ + name
        } else {
            "Created connection: "@ + name
        },
        Err(e) => if editing {
            "Error updating connection: "@ + e
        } else {
            "Error creating connection: "@ + e
        },
    }
}

/// The characters of both sides of a result.
pub open spec fn result_text(r: Result<String, String>) -> Result<Seq<char>, Seq<char>> {
    match r {
        Ok(s) => Ok(s@),
        Err(e) => Err(e@),
    }
}

/// The app with the form closed and emptied.
pub open spec fn modal_closed(a: AppView) -> AppView {
    AppView { create_connection_modal: blank_form(a.default_username), ..a }
}

/// The characters of an optional error.
pub open spec fn deletion_text(r: Option<Result<(), String>>) -> Option<Result<(), Seq<char>>> {
    match r {
        Some(Ok(())) => Some(Ok(())),
        Some(Err(e)) => Some(Err(e@)),
        None => None,
    }
}

/// The app after deleting the connection of the delete dialog was tried
/// (`None` when the dialog named no connection): a message, the list cursor
/// kept on the stored connections after a deletion, and the dialog closed.
pub open spec fn deletion_recorded(a: AppView, outcome: Option<Result<(), Seq<char>>>) -> AppView {
    let closed = DeleteConnectionView { is_open: false, connection_id: None, connection_name: Seq::empty(), selected_yes: false };
    match outcome {
        None => AppView { delete_connection_modal: closed, ..a },
        Some(Ok(())) => AppView {
            messages: a.messages.push("Deleted connection: "@ + a.delete_connection_modal.connection_name),
            selected_connection_index: clamped_index(a.selected_connection_index, a.connections.len() as int),
            delete_connection_modal: closed,
            ..a
        },
        Some(Err(e)) => AppView {
            messages: a.messages.push("Error deleting connection: "@ + e),
            delete_connection_modal: closed,
            ..a
        },
    }
}

proof fn lemma_views_push<T, V>(s: Seq<T>, x: T, f: spec_fn(T) -> V)
    ensures
        s.push(x).map_values(f) == s.map_values(f).push(f(x)),
{
    assert(s.push(x).map_values(f) =~= s.map_values(f).push(f(x)));
}

impl App {
    /// The main screen at start: empty search with focus on it, no
    /// connections yet, and the recent sessions read from the store.
    pub fn new(recent_history: Vec<History>, default_username: String) -> (r: Self)
        ensures
            r@ == (AppView {
                input: Seq::empty(),
                input_cursor: 0,
                messages: Seq::empty(),
                create_connection_modal: blank_form(default_username@),
                delete_connection_modal: closed_dialog(),
                keys_modal: KeysView { is_open: false, keys: Seq::empty(), selected: None, agent_running: false, message: None },
                proxy_jumps_modal: ProxyJumpsView {
                    is_open: false,
                    source_connection_id: None,
                    source_connection_name: Seq::empty(),
                    available_connections: Seq::empty(),
                    selected_jump_ids: Seq::empty(),
                    selected: None,
                    message: None,
                },
                proxy_hosts: Set::empty(),
                proxy_destinations: Set::empty(),
                connections: Seq::empty(),
                filtered_connections: Seq::empty(),
                pending_ssh_connection: None,
                selected_connection_index: 0,
                show_help_modal: false,
                recent_history: history_views(recent_history@),
                history_scroll: 0,
                connection_history: Seq::empty(),
                connection_history_scroll: 0,
                focus: AppFocus::Search,
                default_username: default_username@,
            }),
            well_formed(r@),
    {
        let r = App {
            input: String::new(),
            input_cursor: 0,
            messages: Vec::new(),
            create_connection_modal: CreateConnectionModal::new(default_username.clone()),
            delete_connection_modal: DeleteConnectionModal::new(),
            keys_modal: KeysModal::new(),
            proxy_jumps_modal: ProxyJumpsModal::new(),
            proxy_hosts: HashSet::new(),
            proxy_destinations: HashSet::new(),
            connections: Vec::new(),
            filtered_connections: Vec::new(),
            pending_ssh_connection: None,
            selected_connection_index: 0,
            show_help_modal: false,
            recent_history,
            history_scroll: 0,
            connection_history: Vec::new(),
            connection_history_scroll: 0,
            focus: AppFocus::Search,
            default_username,
        };
        assert(r@.messages =~= Seq::<Seq<char>>::empty());
        assert(r@.connections =~= Seq::<ConnectionView>::empty());
        assert(r@.filtered_connections =~= Seq::<FuzzyMatchView>::empty());
        assert(r@.connection_history =~= Seq::<HistoryView>::empty());
        r
    }

    /// Takes the recent sessions just read (`None` when the read failed, which
    /// keeps the old ones) and keeps the scroll on the list.
    pub fn refresh_history(&mut self, fetched: Option<Vec<History>>)
        ensures
            ({
                let h = match fetched {
                    Some(f) => history_views(f@),
                    None => old(self)@.recent_history,
                };
                final(self)@ == AppView {
                    recent_history: h,
                    history_scroll: clamped_scroll(old(self).history_scroll, h.len() as int),
                    ..old(self)@
                }
            }),
    {
        if let Some(h) = fetched {
            self.recent_history = h;
        }
        self.clamp_history_scroll();
    }

    /// Scrolls the recent sessions back by `step`, stopping at the top.
    pub fn scroll_history_up(&mut self, step: usize)
        ensures
            final(self)@ == (AppView { history_scroll: scrolled_up(old(self).history_scroll, step), ..old(self)@ }),
    {
        self.history_scroll = if self.history_scroll >= step { self.history_scroll - step } else { 0 };
    }

    /// Scrolls the recent sessions on by `step`, stopping at the last one.
    pub fn scroll_history_down(&mut self, step: usize)
        requires
            old(self).history_scroll + step <= usize::MAX,
        ensures
            final(self)@ == (AppView {
                history_scroll: scrolled_down(old(self).history_scroll, step, old(self)@.recent_history.len() as int),
                ..old(self)@
            }),
    {
        let len = self.recent_history.len();
        let max = if len >= 1 { len - 1 } else { 0 };
        let next = self.history_scroll + step;
        self.history_scroll = if next < max { next } else { max };
    }

    fn clamp_history_scroll(&mut self)
        ensures
            final(self)@ == (AppView {
                history_scroll: clamped_scroll(old(self).history_scroll, old(self)@.recent_history.len() as int),
                ..old(self)@
            }),
    {
        let len = self.recent_history.len();
        let max = if len >= 1 { len - 1 } else { 0 };
        if self.history_scroll > max {
            self.history_scroll = max;
        }
    }

    /// Scrolls the chosen connection's sessions back by `step`.
    pub fn scroll_connection_history_up(&mut self, step: usize)
        ensures
            final(self)@ == (AppView {
                connection_history_scroll: scrolled_up(old(self).connection_history_scroll, step),
                ..old(self)@
            }),
    {
        self.connection_history_scroll = if self.connection_history_scroll >= step {
            self.connection_history_scroll - step
        } else {
            0
        };
    }

    /// Scrolls the chosen connection's sessions on by `step`, stopping at the
    /// last one.
    pub fn scroll_connection_history_down(&mut self, step: usize)
        requires
            old(self).connection_history_scroll + step <= usize::MAX,
        ensures
            final(self)@ == (AppView {
                connection_history_scroll: scrolled_down(
                    old(self).connection_history_scroll,
                    step,
                    old(self)@.connection_history.len() as int,
                ),
                ..old(self)@
            }),
    {
        let len = self.connection_history.len();
        let max = if len >= 1 { len - 1 } else { 0 };
        let next = self.connection_history_scroll + step;
        self.connection_history_scroll = if next < max { next } else { max };
    }

    fn clamp_connection_history_scroll(&mut self)
        ensures
            final(self)@ == (AppView {
                connection_history_scroll: clamped_scroll(
                    old(self).connection_history_scroll,
                    old(self)@.connection_history.len() as int,
                ),
                ..old(self)@
            }),
    {
        let len = self.connection_history.len();
        let max = if len >= 1 { len - 1 } else { 0 };
        if self.connection_history_scroll > max {
            self.connection_history_scroll = max;
        }
    }

    /// The id whose sessions must be read to refresh the chosen connection's
    /// history: none without a chosen connection or when it has no id.
    pub fn connection_history_source(&self) -> (r: Option<i32>)
        requires
            well_formed(self@),
        ensures
            r == match selected_connection(self@) {
                Some(k) => self@.connections[k].id,
                None => None,
            },
    {
        if self.selected_connection_index < self.filtered_connections.len() {
            let k = self.filtered_connections[self.selected_connection_index].conn_index;
            assert(self@.filtered_connections[self.selected_connection_index as int].conn_index == k);
            self.connections[k].id
        } else {
            None
        }
    }

    /// Takes the sessions just read for the chosen connection (see
    /// `connection_history_source`; `None` when the read failed).
    pub fn refresh_connection_history(&mut self, fetched: Option<Vec<History>>)
        requires
            well_formed(old(self)@),
        ensures
            final(self)@ == connection_history_refreshed(
                old(self)@,
                match fetched {
                    Some(f) => Some(history_views(f@)),
                    None => None,
                },
            ),
    {
        if self.filtered_connections.len() == 0 || self.selected_connection_index >= self.filtered_connections.len() {
            self.connection_history = Vec::new();
            self.connection_history_scroll = 0;
            assert(self@.connection_history =~= Seq::<HistoryView>::empty());
            return;
        }
        let k = self.filtered_connections[self.selected_connection_index].conn_index;
        assert(self@.filtered_connections[self.selected_connection_index as int].conn_index == k);
        if self.connections[k].id.is_some() {
            if let Some(h) = fetched {
                self.connection_history = h;
            }
        } else {
            self.connection_history = Vec::new();
            assert(self@.connection_history =~= Seq::<HistoryView>::empty());
        }
        self.clamp_connection_history_scroll();
    }

    /// Whether `connection` jumps through other connections.
    pub fn has_proxy(&self, connection: &Connection) -> (r: bool)
        ensures
            r == uses_proxy(self.proxy_destinations@, connection.id),
    {
        match connection.id {
            Some(id) => self.proxy_destinations.contains(&id),
            None => false,
        }
    }

    /// Whether other connections jump through `connection`.
    pub fn is_proxy(&self, connection: &Connection) -> (r: bool)
        ensures
            r == serves_as_proxy(self.proxy_hosts@, connection.id),
    {
        match connection.id {
            Some(id) => self.proxy_hosts.contains(&id),
            None => false,
        }
    }

    fn tier_of(&self, k: usize) -> (r: u8)
        requires
            k < self.connections@.len(),
        ensures
            r as int == proxy_tier(self@, k as int),
    {
        let has = self.has_proxy(&self.connections[k]);
        let is = self.is_proxy(&self.connections[k]);
        match (has, is) {
            (false, false) => 0,
            (true, false) => 1,
            (false, true) => 2,
            (true, true) => 3,
        }
    }

    fn ranks_before_exec(&self, x: &FuzzyMatchResult, y: &FuzzyMatchResult) -> (r: bool)
        requires
            x.conn_index < self.connections@.len(),
            y.conn_index < self.connections@.len(),
        ensures
            r == ranks_before(self@, x@, y@),
    {
        if x.score != y.score {
            return x.score > y.score;
        }
        let tx = self.tier_of(x.conn_index);
        let ty = self.tier_of(y.conn_index);
        if tx != ty {
            return tx < ty;
        }
        x.conn_index < y.conn_index
    }

    /// Recomputes the matches of the search text over all stored connections,
    /// ranks them (score, then tier, storage order otherwise kept) and keeps
    /// the list cursor on the list.
    pub fn update_search_filter(&mut self)
        requires
            dialogs_well_formed(old(self)@),
        ensures
            filter_refreshed(old(self)@, final(self)@),
            well_formed(final(self)@),
            forall|i: int, j: int|
                0 <= i < j < final(self)@.filtered_connections.len() ==> (#[trigger] final(self)@.filtered_connections[i]).score
                    >= (#[trigger] final(self)@.filtered_connections[j]).score,
    {
        let ghost pre = self@;
        let ghost mapped = pre.connections.map(|i: int, c: ConnectionView| match_entry(i, c, pre.input));
        let mut results: Vec<FuzzyMatchResult> = Vec::new();
        let n = self.connections.len();
        let mut i: usize = 0;
        while i < n
            invariant
                self@ == pre,
                n == pre.connections.len(),
                mapped == pre.connections.map(|i: int, c: ConnectionView| match_entry(i, c, pre.input)),
                i <= n,
                sorted_by_rank(pre, match_views(results@)),
                results@.len() == candidates_upto(pre.connections, pre.input, i as int).len(),
                forall|x: FuzzyMatchView| match_views(results@).contains(x) <==> candidates_upto(
                    pre.connections,
                    pre.input,
                    i as int,
                ).contains(x),
                forall|k: int| 0 <= k < results@.len() ==> (#[trigger] results@[k]).conn_index < i,
                forall|k: int|
                    0 <= k < results@.len() ==> highlights_sound(
                        (#[trigger] results@[k])@,
                        pre.connections[results@[k].conn_index as int],
                        pre.input,
                    ),
                forall|j: int|
                    #![trigger lists_connection(match_views(results@), j)]
                    0 <= j < i ==> (lists_connection(match_views(results@), j) <==> search_hit(
                        pre.connections[j],
                        pre.input,
                    )),
            decreases n - i,
        {
            let found = match_connection(i, &self.connections[i], self.input.as_str());
            proof {
                mapped.lemma_filter_map_take_succ(|o: Option<FuzzyMatchView>| o, i as int);
                assert(mapped[i as int] == match_entry(i as int, pre.connections[i as int], pre.input));
            }
            if let Some(m) = found {
                let len = results.len();
                let mut p: usize = 0;
                while p < len && self.ranks_before_exec(&results[p], &m)
                    invariant
                        self@ == pre,
                        n == self.connections@.len(),
                        len == results@.len(),
                        p <= len,
                        m.conn_index == i,
                        i < n,
                        forall|k: int| 0 <= k < results@.len() ==> (#[trigger] results@[k]).conn_index < i,
                        forall|k: int| 0 <= k < p ==> ranks_before(pre, (#[trigger] results@[k])@, m@),
                    decreases len - p,
                {
                    p = p + 1;
                }
                let ghost before = results@;
                proof {
                    if p < len {
                        assert(!ranks_before(pre, before[p as int]@, m@));
                        assert(before[p as int].conn_index < i);
                    }
                }
                results.insert(p, m);
                proof {
                    let old_v = match_views(before);
                    let new_v = match_views(results@);
                    assert(new_v =~= old_v.insert(p as int, m@));
                    assert forall|a: int, b: int| 0 <= a < b < new_v.len() implies ranks_before(
                        pre,
                        #[trigger] new_v[a],
                        #[trigger] new_v[b],
                    ) by {
                        if b < p {
                            assert(new_v[a] == old_v[a] && new_v[b] == old_v[b]);
                        } else if b == p {
                            assert(new_v[a] == old_v[a]);
                            assert(ranks_before(pre, before[a]@, m@));
                        } else if a < p {
                            assert(new_v[a] == old_v[a] && new_v[b] == old_v[b - 1]);
                            assert(ranks_before(pre, before[a]@, m@));
                            assert(before[b - 1].conn_index < i);
                            if b - 1 > p {
                                assert(ranks_before(pre, old_v[p as int], old_v[b - 1]));
                            }
                        } else if a == p {
                            assert(new_v[b] == old_v[b - 1]);
                            assert(before[b - 1].conn_index < i);
                            assert(before[p as int].conn_index < i);
                            if b - 1 > p {
                                assert(ranks_before(pre, old_v[p as int], old_v[b - 1]));
                            }
                        } else {
                            assert(new_v[a] == old_v[a - 1] && new_v[b] == old_v[b - 1]);
                        }
                    }
                    assert forall|x: FuzzyMatchView| new_v.contains(x) <==> (old_v.contains(x) || x == m@) by {
                        if new_v.contains(x) {
                            let j = choose|j: int| 0 <= j < new_v.len() && new_v[j] == x;
                            if j < p {
                                assert(old_v[j] == x);
                            } else if j > p {
                                assert(old_v[j - 1] == x);
                            }
                        }
                        if old_v.contains(x) {
                            let j = choose|j: int| 0 <= j < old_v.len() && old_v[j] == x;
                            if j < p {
                                assert(new_v[j] == x);
                            } else {
                                assert(new_v[j + 1] == x);
                            }
                        }
                        if x == m@ {
                            assert(new_v[p as int] == x);
                        }
                    }
                    assert forall|k: int| 0 <= k < results@.len() implies (#[trigger] results@[k]).conn_index < i + 1
                        && highlights_sound(
                        results@[k]@,
                        pre.connections[results@[k].conn_index as int],
                        pre.input,
                    ) by {
                        if k < p {
                            assert(results@[k] == before[k]);
                        } else if k > p {
                            assert(results@[k] == before[k - 1]);
                        }
                    }
                    assert forall|j: int| 0 <= j < i + 1 implies (lists_connection(new_v, j) <==> search_hit(
                        pre.connections[j],
                        pre.input,
                    )) by {
                        if j == i {
                            assert(new_v.contains(m@));
                        } else {
                            if lists_connection(new_v, j) {
                                let x = choose|x: FuzzyMatchView| new_v.contains(x) && x.conn_index == j;
                                assert(old_v.contains(x));
                            }
                            if lists_connection(old_v, j) {
                                let x = choose|x: FuzzyMatchView| old_v.contains(x) && x.conn_index == j;
                                assert(new_v.contains(x));
                            }
                        }
                    }
                    let c0 = candidates_upto(pre.connections, pre.input, i as int);
                    let c1 = candidates_upto(pre.connections, pre.input, i + 1);
                    assert(c1 =~= c0 + seq![m@]);
                    assert forall|x: FuzzyMatchView| c1.contains(x) <==> (c0.contains(x) || x == m@) by {
                        if c1.contains(x) {
                            let j = choose|j: int| 0 <= j < c1.len() && c1[j] == x;
                            if j < c0.len() {
                                assert(c0[j] == x);
                            }
                        }
                        if c0.contains(x) {
                            let j = choose|j: int| 0 <= j < c0.len() && c0[j] == x;
                            assert(c1[j] == x);
                        }
                        if x == m@ {
                            assert(c1[c0.len() as int] == x);
                        }
                    }
                }
            } else {
                proof {
                    let c0 = candidates_upto(pre.connections, pre.input, i as int);
                    let c1 = candidates_upto(pre.connections, pre.input, i + 1);
                    assert(c1 =~= c0);
                    let v = match_views(results@);
                    if lists_connection(v, i as int) {
                        let x = choose|x: FuzzyMatchView| v.contains(x) && x.conn_index == i;
                        let k = choose|k: int| 0 <= k < v.len() && v[k] == x;
                        assert(results@[k].conn_index < i);
                    }
                }
            }
            i = i + 1;
        }
        proof {
            assert(mapped.take(n as int) =~= mapped);
        }
        self.filtered_connections = results;
        let len = self.filtered_connections.len();
        if self.selected_connection_index >= len && len > 0 {
            self.selected_connection_index = len - 1;
        } else if len == 0 {
            self.selected_connection_index = 0;
        }
        proof {
            assert forall|k: int| 0 <= k < self@.filtered_connections.len() implies (#[trigger] self@.filtered_connections[k]).conn_index
                < self@.connections.len() && highlights_sound(
                self@.filtered_connections[k],
                self@.connections[self@.filtered_connections[k].conn_index as int],
                self@.input,
            ) by {
                assert(self@.filtered_connections[k] == self.filtered_connections@[k]@);
            }
            lemma_better_matches_first(pre, self@);
        }
    }

    /// Takes the connections just read from the store, with the ids of the
    /// jump hosts and of the connections that use them (`None` where a read
    /// failed: failed connections change nothing, failed id reads leave no
    /// ids), and recomputes the matches.
    pub fn refresh_connections(
        &mut self,
        conns: Option<Vec<Connection>>,
        hosts: Option<HashSet<i32>>,
        destinations: Option<HashSet<i32>>,
    )
        requires
            well_formed(old(self)@),
        ensures
            conns is None ==> final(self)@ == old(self)@,
            conns matches Some(c) ==> filter_refreshed(
                AppView {
                    connections: connection_views(c@),
                    proxy_hosts: match hosts { Some(h) => h@, None => Set::empty() },
                    proxy_destinations: match destinations { Some(d) => d@, None => Set::empty() },
                    ..old(self)@
                },
                final(self)@,
            ),
            well_formed(final(self)@),
    {
        if let Some(c) = conns {
            self.connections = c;
            self.proxy_hosts = match hosts {
                Some(h) => h,
                None => HashSet::new(),
            };
            self.proxy_destinations = match destinations {
                Some(d) => d,
                None => HashSet::new(),
            };
            self.update_search_filter();
        }
    }

    /// Takes the stored connection after its favorite mark was flipped
    /// (`None` when the store refused) and recomputes the matches.
    pub fn apply_favorite_toggle(&mut self, conn_index: usize, updated: Option<Connection>)
        requires
            well_formed(old(self)@),
            conn_index < old(self)@.connections.len(),
        ensures
            updated is None ==> final(self)@ == old(self)@,
            updated matches Some(c) ==> filter_refreshed(
                AppView { connections: old(self)@.connections.update(conn_index as int, c@), ..old(self)@ },
                final(self)@,
            ),
            well_formed(final(self)@),
    {
        if let Some(c) = updated {
            self.connections.set(conn_index, c);
            proof {
                assert(self@.connections =~= old(self)@.connections.update(conn_index as int, c@));
            }
            self.update_search_filter();
        }
    }

    /// What submitting the connection form writes to the store.
    pub fn submit_connection(&self) -> (r: ConnectionDraft)
        ensures
            r@ == crate::modals::create_connection::draft_of(self@.create_connection_modal),
    {
        self.create_connection_modal.connection_draft()
    }

    /// Closes the connection form and empties it.
    pub fn close_modal(&mut self)
        ensures
            final(self)@ == modal_closed(old(self)@),
    {
        self.create_connection_modal.is_open = false;
        self.create_connection_modal.reset(self.default_username.clone());
    }

    /// Reports how writing the form's connection went (`Ok` with the stored
    /// connection's name, `Err` with the store's error) and closes the form.
    pub fn record_submission(&mut self, outcome: Result<String, String>)
        ensures
            final(self)@ == modal_closed(
                AppView {
                    messages: old(self)@.messages.push(
                        submission_message(
                            old(self).create_connection_modal.editing_connection_id is Some,
                            result_text(outcome),
                        ),
                    ),
                    ..old(self)@
                },
            ),
    {
        let editing = self.create_connection_modal.editing_connection_id.is_some();
        let msg = match outcome {
            Ok(name) => if editing {
                join_text("Updated connection: ", name.as_str())
            } else {
                join_text("Created connection: ", name.as_str())
            },
            Err(e) => if editing {
                join_text("Error updating connection: ", e.as_str())
            } else {
                join_text("Error creating connection: ", e.as_str())
            },
        };
        let ghost before = self.messages@;
        self.messages.push(msg);
        proof {
            lemma_views_push(before, msg, |s: String| s@);
        }
        self.close_modal();
    }

    /// The id of the connection the delete dialog would delete.
    pub fn delete_connection(&self) -> (r: Option<i32>)
        ensures
            r == self.delete_connection_modal.connection_id,
    {
        self.delete_connection_modal.connection_id
    }

    /// Reports how deleting went (`None` when the dialog named no connection;
    /// after a deletion the connections must have been read again), keeps the
    /// list cursor on the stored connections and closes the dialog.
    pub fn record_deletion(&mut self, outcome: Option<Result<(), String>>)
        ensures
            final(self)@ == deletion_recorded(old(self)@, deletion_text(outcome)),
    {
        match outcome {
            None => {},
            Some(Ok(())) => {
                let msg = join_text("Deleted connection: ", self.delete_connection_modal.connection_name.as_str());
                let ghost before = self.messages@;
                self.messages.push(msg);
                proof {
                    lemma_views_push(before, msg, |s: String| s@);
                }
                let len = self.connections.len();
                if self.selected_connection_index >= len && len > 0 {
                    self.selected_connection_index = len - 1;
                } else if len == 0 {
                    self.selected_connection_index = 0;
                }
            },
            Some(Err(e)) => {
                let msg = join_text("Error deleting connection: ", e.as_str());
                let ghost before = self.messages@;
                self.messages.push(msg);
                proof {
                    lemma_views_push(before, msg, |s: String| s@);
                }
            },
        }
        self.delete_connection_modal.close();
    }
}

/// Ranking is a strict order: no match is listed before itself, and of two
/// matches at most one is listed before the other.
pub proof fn lemma_rank_asymmetric(a: AppView, x: FuzzyMatchView, y: FuzzyMatchView)
    ensures
        !ranks_before(a, x, x),
        ranks_before(a, x, y) ==> !ranks_before(a, y, x),
{
}

proof fn lemma_sorted_unique(a: AppView, s1: Seq<FuzzyMatchView>, s2: Seq<FuzzyMatchView>)
    requires
        sorted_by_rank(a, s1),
        sorted_by_rank(a, s2),
        s1.len() == s2.len(),
        forall|x: FuzzyMatchView| s1.contains(x) <==> s2.contains(x),
    ensures
        s1 == s2,
    decreases s1.len(),
{
    if s1.len() == 0 {
        assert(s1 =~= s2);
    } else {
        let x1 = s1[0];
        let x2 = s2[0];
        assert(s1.contains(x1));
        assert(s2.contains(x2));
        if x1 != x2 {
            let j = choose|j: int| 0 <= j < s2.len() && s2[j] == x1;
            let k = choose|k: int| 0 <= k < s1.len() && s1[k] == x2;
            assert(j != 0 && k != 0);
            assert(ranks_before(a, s2[0], s2[j]));
            assert(ranks_before(a, s1[0], s1[k]));
            lemma_rank_asymmetric(a, x1, x2);
        }
        let t1 = s1.drop_first();
        let t2 = s2.drop_first();
        assert forall|x: FuzzyMatchView| t1.contains(x) <==> t2.contains(x) by {
            if t1.contains(x) {
                let i = choose|i: int| 0 <= i < t1.len() && t1[i] == x;
                assert(s1[i + 1] == x);
                assert(ranks_before(a, s1[0], s1[i + 1]));
                lemma_rank_asymmetric(a, x, x);
                assert(s2.contains(x));
                let j = choose|j: int| 0 <= j < s2.len() && s2[j] == x;
                assert(j != 0);
                assert(t2[j - 1] == x);
            }
            if t2.contains(x) {
                let i = choose|i: int| 0 <= i < t2.len() && t2[i] == x;
                assert(s2[i + 1] == x);
                assert(ranks_before(a, s2[0], s2[i + 1]));
                lemma_rank_asymmetric(a, x, x);
                assert(s1.contains(x));
                let j = choose|j: int| 0 <= j < s1.len() && s1[j] == x;
                assert(j != 0);
                assert(t1[j - 1] == x);
            }
        }
        assert forall|i: int, j: int| 0 <= i < j < t1.len() implies ranks_before(a, #[trigger] t1[i], #[trigger] t1[j]) by {
            assert(t1[i] == s1[i + 1] && t1[j] == s1[j + 1]);
        }
        assert forall|i: int, j: int| 0 <= i < j < t2.len() implies ranks_before(a, #[trigger] t2[i], #[trigger] t2[j]) by {
            assert(t2[i] == s2[i + 1] && t2[j] == s2[j + 1]);
        }
        lemma_sorted_unique(a, t1, t2);
        assert(x1 == x2);
        assert forall|i: int| 0 <= i < s1.len() implies s1[i] == s2[i] by {
            if i > 0 {
                assert(s1[i] == t1[i - 1]);
                assert(s2[i] == t2[i - 1]);
            }
        }
        assert(s1 =~= s2);
    }
}

/// The result of a search is fully determined: any two lists that hold the
/// search's matches, each once, in rank order are the same list.
pub proof fn lemma_ranked_matches_unique(a: AppView, s1: Seq<FuzzyMatchView>, s2: Seq<FuzzyMatchView>)
    requires
        ranked_matches(a, s1),
        ranked_matches(a, s2),
    ensures
        s1 == s2,
{
    lemma_sorted_unique(a, s1, s2);
}

/// Typing part of a connection's name, user name or host name finds it: when
/// the search text occurs, in order but not necessarily adjacent, in one of
/// those fields (up to ASCII case unless the search holds an ASCII capital),
/// the recomputed matches list the connection.
pub proof fn lemma_search_finds_by_field(pre: AppView, post: AppView, j: int)
    requires
        filter_refreshed(pre, post),
        0 <= j < pre.connections.len(),
        skim_finds(pre.connections[j].name, pre.input) || skim_finds(pre.connections[j].username, pre.input)
            || skim_finds(pre.connections[j].hostname, pre.input),
    ensures
        lists_connection(post.filtered_connections, j),
{
    lemma_field_hit(pre.connections[j], pre.input);
    assert(post.connections == pre.connections && post.input == pre.input);
    assert(search_hit(post.connections[j], post.input));
}

/// The recomputed matches put a higher skim score before a lower one, and
/// among equal scores a connection of a lower jump host tier before one of a
/// higher tier.
pub proof fn lemma_better_matches_first(pre: AppView, post: AppView)
    requires
        filter_refreshed(pre, post),
    ensures
        forall|i: int, j: int|
            0 <= i < j < post.filtered_connections.len() ==> (#[trigger] post.filtered_connections[i]).score
                >= (#[trigger] post.filtered_connections[j]).score,
        forall|i: int, j: int|
            0 <= i < j < post.filtered_connections.len() && (#[trigger] post.filtered_connections[i]).score
                == (#[trigger] post.filtered_connections[j]).score ==> proxy_tier(
                pre,
                post.filtered_connections[i].conn_index as int,
            ) <= proxy_tier(pre, post.filtered_connections[j].conn_index as int),
{
    let s = post.filtered_connections;
    assert forall|i: int, j: int| 0 <= i < j < s.len() implies (#[trigger] s[i]).score >= (#[trigger] s[j]).score
        && (s[i].score == s[j].score ==> proxy_tier(pre, s[i].conn_index as int) <= proxy_tier(
        pre,
        s[j].conn_index as int,
    )) by {
        assert(ranks_before(pre, s[i], s[j]));
    }
}

/// With an empty search every stored connection is listed, with score 0 and
/// nothing highlighted, in storage order before ranking.
pub proof fn lemma_empty_search_lists_all(conns: Seq<ConnectionView>, n: nat)
    requires
        n <= conns.len(),
        conns.len() <= usize::MAX,
    ensures
        candidates_upto(conns, Seq::empty(), n as int).len() == n,
        forall|i: int| 0 <= i < n ==> (#[trigger] candidates_upto(conns, Seq::empty(), n as int)[i]) == (FuzzyMatchView {
            conn_index: i as usize,
            score: 0,
            name_indices: Seq::empty(),
            username_indices: Seq::empty(),
            hostname_indices: Seq::empty(),
        }),
    decreases n,
{
    let mapped = conns.map(|i: int, c: ConnectionView| match_entry(i, c, Seq::empty()));
    if n > 0 {
        lemma_empty_search_lists_all(conns, (n - 1) as nat);
        mapped.lemma_filter_map_take_succ(|o: Option<FuzzyMatchView>| o, n - 1);
        assert(mapped[n - 1] == match_entry(n - 1, conns[n - 1], Seq::empty()));
    } else {
        assert(mapped.take(0) =~= Seq::<Option<FuzzyMatchView>>::empty());
    }
}

/// After the matches are recomputed the list cursor is on the list, or at 0
/// when nothing matches.
pub proof fn lemma_cursor_on_matches(pre: AppView, post: AppView)
    requires
        filter_refreshed(pre, post),
    ensures
        post.filtered_connections.len() == 0 ==> post.selected_connection_index == 0,
        post.filtered_connections.len() > 0 ==> post.selected_connection_index < post.filtered_connections.len(),
{
}

/// Scrolling down never moves past the last entry, and scrolling up never
/// below the first.
pub proof fn lemma_scroll_bounds(s: usize, step: usize, len: int)
    requires
        s + step <= usize::MAX,
        0 <= len <= usize::MAX,
    ensures
        len > 0 ==> scrolled_down(s, step, len) < len,
        len == 0 ==> scrolled_down(s, step, len) == 0,
        scrolled_up(s, step) <= s,
{
}

} // verus!
