//! The dialog that picks and orders the jump hosts a connection goes through.
use vstd::prelude::*;
use crate::connection::{Connection, ConnectionView};
use super::{selection_in_bounds, next_selection, previous_selection, step_down, step_up};

verus! {

/// The jump host dialog: the connection being configured, the other
/// connections it may jump through, the ids of the chosen jump hosts in hop
/// order, the list cursor and the last message.
pub struct ProxyJumpsModal {
    pub is_open: bool,
    pub source_connection_id: Option<i32>,
    pub source_connection_name: String,
    pub available_connections: Vec<Connection>,
    pub selected_jump_ids: Vec<i32>,
    pub selected: Option<usize>,
    pub message: Option<String>,
}

/// The dialog as values.
pub struct ProxyJumpsView {
    pub is_open: bool,
    pub source_connection_id: Option<i32>,
    pub source_connection_name: Seq<char>,
    pub available_connections: Seq<ConnectionView>,
    pub selected_jump_ids: Seq<i32>,
    pub selected: Option<usize>,
    pub message: Option<Seq<char>>,
}

impl View for ProxyJumpsModal {
    type V = ProxyJumpsView;

    open spec fn view(&self) -> ProxyJumpsView {
        ProxyJumpsView {
            is_open: self.is_open,
            source_connection_id: self.source_connection_id,
            source_connection_name: self.source_connection_name@,
            available_connections: self.available_connections@.map_values(|c: Connection| c@),
            selected_jump_ids: self.selected_jump_ids@,
            selected: self.selected,
            message: crate::connection::opt_text(self.message),
        }
    }
}

/// The position of the first occurrence of `x` in `s`, if any.
pub open spec fn position_of(s: Seq<i32>, x: i32) -> Option<int> {
    if s.contains(x) {
        Some(choose|i: int| 0 <= i < s.len() && s[i] == x && forall|j: int| 0 <= j < i ==> s[j] != x)
    } else {
        None
    }
}

/// The id of the connection under the cursor, if the cursor is on one that
/// has an id.
pub open spec fn target_under_cursor(m: ProxyJumpsView) -> Option<i32> {
    match m.selected {
        Some(i) => m.available_connections[i as int].id,
        None => None,
    }
}

/// The chosen jump hosts after toggling `t`: removed where it was, or added as
/// the last hop.
pub open spec fn toggled(ids: Seq<i32>, t: i32) -> Seq<i32> {
    match position_of(ids, t) {
        Some(p) => ids.remove(p),
        None => ids.push(t),
    }
}

/// The sequence with the items at `a` and `b` exchanged.
pub open spec fn swapped(s: Seq<i32>, a: int, b: int) -> Seq<i32> {
    s.update(a, s[b]).update(b, s[a])
}

/// The chosen jump hosts after moving `t` one hop earlier (nothing when it is
/// first or not chosen).
pub open spec fn moved_earlier(ids: Seq<i32>, t: i32) -> Seq<i32> {
    match position_of(ids, t) {
        Some(p) => if p > 0 { swapped(ids, p, p - 1) } else { ids },
        None => ids,
    }
}

/// The chosen jump hosts after moving `t` one hop later (nothing when it is
/// last or not chosen).
pub open spec fn moved_later(ids: Seq<i32>, t: i32) -> Seq<i32> {
    match position_of(ids, t) {
        Some(p) => if p < ids.len() - 1 { swapped(ids, p, p + 1) } else { ids },
        None => ids,
    }
}

/// The dialog with its chosen jump hosts changed by `f` applied to the id
/// under the cursor (unchanged without one).
pub open spec fn edit_under_cursor(m: ProxyJumpsView, f: spec_fn(Seq<i32>, i32) -> Seq<i32>) -> ProxyJumpsView {
    match target_under_cursor(m) {
        Some(t) => ProxyJumpsView { selected_jump_ids: f(m.selected_jump_ids, t), ..m },
        None => m,
    }
}

/// The connections a source may jump through: all others, by id.
pub open spec fn other_connections(all: Seq<ConnectionView>, source_id: Option<i32>) -> Seq<ConnectionView> {
    all.filter(|c: ConnectionView| c.id != source_id)
}

/// The ids of the jump hosts read for a source, in hop order.
pub open spec fn ids_of(hops: Seq<ConnectionView>) -> Seq<i32> {
    hops.filter_map(|c: ConnectionView| c.id)
}

/// The dialog opened for `source`, given all stored connections and the
/// source's current jump hosts (each `None` when reading it failed; a failed
/// read of all connections keeps the previous list, a failed read of the jump
/// hosts leaves none chosen).
pub open spec fn opened_for(
    m: ProxyJumpsView,
    source: ConnectionView,
    all: Option<Seq<ConnectionView>>,
    hops: Option<Seq<ConnectionView>>,
) -> ProxyJumpsView {
    let available = match all {
        Some(a) => other_connections(a, source.id),
        None => m.available_connections,
    };
    ProxyJumpsView {
        is_open: true,
        source_connection_id: source.id,
        source_connection_name: source.name,
        available_connections: available,
        selected_jump_ids: match (source.id, hops) {
            (Some(_), Some(h)) => ids_of(h),
            _ => Seq::empty(),
        },
        selected: if available.len() > 0 { Some(0) } else { None },
        message: None,
    }
}

proof fn lemma_position_of_facts(s: Seq<i32>, x: i32, p: int)
    requires
        0 <= p < s.len(),
        s[p] == x,
        forall|j: int| 0 <= j < p ==> s[j] != x,
    ensures
        position_of(s, x) == Some(p),
{
    assert(s.contains(x));
    let q = choose|k: int| 0 <= k < s.len() && s[k] == x && forall|j: int| 0 <= j < k ==> s[j] != x;
    assert(0 <= q < s.len() && s[q] == x && forall|j: int| 0 <= j < q ==> s[j] != x);
    assert(q == p);
}

proof fn lemma_position_of_found(s: Seq<i32>, x: i32)
    requires
        position_of(s, x) is Some,
    ensures
        0 <= position_of(s, x)->0 < s.len(),
        s[position_of(s, x)->0] == x,
        forall|j: int| 0 <= j < position_of(s, x)->0 ==> s[j] != x,
{
    let i = choose|i: int| 0 <= i < s.len() && s[i] == x;
    first_index_at_most(s, x, i);
}

proof fn first_index_at_most(s: Seq<i32>, x: i32, i: int) -> (k: int)
    requires
        0 <= i < s.len(),
        s[i] == x,
    ensures
        0 <= k <= i,
        s[k] == x,
        forall|j: int| 0 <= j < k ==> s[j] != x,
    decreases i,
{
    if exists|j: int| 0 <= j < i && s[j] == x {
        let j = choose|j: int| 0 <= j < i && s[j] == x;
        first_index_at_most(s, x, j)
    } else {
        i
    }
}

/// Choosing a connection that is not yet a hop and then un-choosing it gives
/// back the hop list as it was.
pub proof fn lemma_toggle_twice(ids: Seq<i32>, t: i32)
    requires
        !ids.contains(t),
    ensures
        toggled(toggled(ids, t), t) == ids,
{
    assert(position_of(ids, t) is None);
    let once = ids.push(t);
    assert(toggled(ids, t) == once);
    assert forall|j: int| 0 <= j < ids.len() implies once[j] != t by {
        assert(once[j] == ids[j]);
    }
    lemma_position_of_facts(once, t, ids.len() as int);
    assert(once.remove(ids.len() as int) =~= ids);
}

/// Moving a hop one place earlier and then one place later gives back the hop
/// list as it was, whenever the hop was not already first.
pub proof fn lemma_move_earlier_then_later(ids: Seq<i32>, t: i32, p: int)
    requires
        position_of(ids, t) == Some(p),
        p > 0,
    ensures
        moved_later(moved_earlier(ids, t), t) == ids,
{
    lemma_position_of_found(ids, t);
    let once = swapped(ids, p, p - 1);
    assert(moved_earlier(ids, t) == once);
    assert forall|j: int| 0 <= j < p - 1 implies once[j] != t by {
        assert(once[j] == ids[j]);
    }
    lemma_position_of_facts(once, t, p - 1);
    assert(swapped(once, p - 1, p) =~= ids);
}

/// The views of a list of connections.
pub open spec fn views_of(v: Seq<Connection>) -> Seq<ConnectionView> {
    v.map_values(|c: Connection| c@)
}

fn find_position(ids: &Vec<i32>, t: i32) -> (r: Option<usize>)
    ensures
        match r {
            Some(p) => position_of(ids@, t) == Some(p as int) && p < ids@.len() && ids@[p as int] == t,
            None => position_of(ids@, t) is None,
        },
{
    let n = ids.len();
    let mut i: usize = 0;
    while i < n
        invariant
            n == ids@.len(),
            i <= n,
            forall|j: int| 0 <= j < i ==> ids@[j] != t,
        decreases n - i,
    {
        if ids[i] == t {
            proof {
                let p = i as int;
                assert(ids@.contains(t));
                let q = choose|k: int| 0 <= k < ids@.len() && ids@[k] == t && forall|j: int| 0 <= j < k ==> ids@[j] != t;
                assert(0 <= q < ids@.len() && ids@[q] == t && forall|j: int| 0 <= j < q ==> ids@[j] != t);
                assert(q == p);
            }
            return Some(i);
        }
        i = i + 1;
    }
    None
}

impl ProxyJumpsModal {
    /// The closed dialog.
    pub fn new() -> (r: Self)
        ensures
            r@ == (ProxyJumpsView {
                is_open: false,
                source_connection_id: None,
                source_connection_name: Seq::empty(),
                available_connections: Seq::empty(),
                selected_jump_ids: Seq::empty(),
                selected: None,
                message: None,
            }),
    {
        let r = ProxyJumpsModal {
            is_open: false,
            source_connection_id: None,
            source_connection_name: String::new(),
            available_connections: Vec::new(),
            selected_jump_ids: Vec::new(),
            selected: None,
            message: None,
        };
        assert(r@.available_connections =~= Seq::<ConnectionView>::empty());
        r
    }

    /// Opens the dialog for `source_conn`, given what reading all connections
    /// and the source's jump hosts gave.
    pub fn open(&mut self, source_conn: &Connection, all: Option<Vec<Connection>>, hops: Option<Vec<Connection>>)
        ensures
            final(self)@ == opened_for(
                old(self)@,
                source_conn@,
                match all { Some(a) => Some(views_of(a@)), None => None },
                match hops { Some(h) => Some(views_of(h@)), None => None },
            ),
    {
        self.source_connection_id = source_conn.id;
        self.source_connection_name = source_conn.name.clone();
        if let Some(all_conns) = all {
            let mut kept: Vec<Connection> = Vec::new();
            let n = all_conns.len();
            let mut i: usize = 0;
            let ghost p = |c: ConnectionView| c.id != source_conn.id;
            while i < n
                invariant
                    n == all_conns@.len(),
                    i <= n,
                    views_of(kept@) == views_of(all_conns@).take(i as int).filter(p),
                    p == (|c: ConnectionView| c.id != source_conn.id),
                decreases n - i,
            {
                proof {
                    assert(views_of(all_conns@).take(i + 1) =~= views_of(all_conns@).take(i as int).push(all_conns@[i as int]@));
                    views_of(all_conns@).take(i as int).lemma_filter_push(all_conns@[i as int]@, p);
                }
                if all_conns[i].id != source_conn.id {
                    let c = all_conns[i].clone();
                    let ghost before = kept@;
                    kept.push(c);
                    assert(views_of(kept@) =~= views_of(before).push(c@));
                }
                i = i + 1;
            }
            assert(views_of(all_conns@).take(n as int) =~= views_of(all_conns@));
            self.available_connections = kept;
        }
        self.selected_jump_ids = Vec::new();
        if let Some(sid) = source_conn.id {
            if let Some(hop_conns) = hops {
                let mut ids: Vec<i32> = Vec::new();
                let n = hop_conns.len();
                let mut i: usize = 0;
                while i < n
                    invariant
                        n == hop_conns@.len(),
                        i <= n,
                        ids@ == ids_of(views_of(hop_conns@).take(i as int)),
                    decreases n - i,
                {
                    proof {
                        views_of(hop_conns@).lemma_filter_map_take_succ(|c: ConnectionView| c.id, i as int);
                    }
                    if let Some(id) = hop_conns[i].id {
                        ids.push(id);
                    }
                    i = i + 1;
                }
                assert(views_of(hop_conns@).take(n as int) =~= views_of(hop_conns@));
                self.selected_jump_ids = ids;
            }
        }
        self.message = None;
        if self.available_connections.len() > 0 {
            self.selected = Some(0);
        } else {
            self.selected = None;
        }
        self.is_open = true;
    }

    /// Closes the dialog and forgets the source and the message.
    pub fn close(&mut self)
        ensures
            final(self)@ == (ProxyJumpsView {
                is_open: false,
                source_connection_id: None,
                source_connection_name: Seq::empty(),
                message: None,
                ..old(self)@
            }),
    {
        self.is_open = false;
        self.source_connection_id = None;
        self.source_connection_name = String::new();
        self.message = None;
    }

    /// Adds the connection under the cursor as the last hop, or removes it if
    /// it is already a hop.
    pub fn toggle_selected(&mut self)
        requires
            selection_in_bounds(old(self).selected, old(self).available_connections@.len() as int),
        ensures
            final(self)@ == edit_under_cursor(old(self)@, |ids: Seq<i32>, t: i32| toggled(ids, t)),
    {
        if let Some(idx) = self.selected {
            if let Some(target_id) = self.available_connections[idx].id {
                match find_position(&self.selected_jump_ids, target_id) {
                    Some(pos) => { self.selected_jump_ids.remove(pos); },
                    None => { self.selected_jump_ids.push(target_id); },
                }
            }
        }
    }

    /// Moves the hop under the cursor one place earlier in the order.
    pub fn move_up(&mut self)
        requires
            selection_in_bounds(old(self).selected, old(self).available_connections@.len() as int),
        ensures
            final(self)@ == edit_under_cursor(old(self)@, |ids: Seq<i32>, t: i32| moved_earlier(ids, t)),
    {
        if let Some(idx) = self.selected {
            if let Some(target_id) = self.available_connections[idx].id {
                if let Some(pos) = find_position(&self.selected_jump_ids, target_id) {
                    if pos > 0 {
                        let a = self.selected_jump_ids[pos];
                        let b = self.selected_jump_ids[pos - 1];
                        self.selected_jump_ids.set(pos, b);
                        self.selected_jump_ids.set(pos - 1, a);
                    }
                }
            }
        }
    }

    /// Moves the hop under the cursor one place later in the order.
    pub fn move_down(&mut self)
        requires
            selection_in_bounds(old(self).selected, old(self).available_connections@.len() as int),
        ensures
            final(self)@ == edit_under_cursor(old(self)@, |ids: Seq<i32>, t: i32| moved_later(ids, t)),
    {
        if let Some(idx) = self.selected {
            if let Some(target_id) = self.available_connections[idx].id {
                if let Some(pos) = find_position(&self.selected_jump_ids, target_id) {
                    if pos < self.selected_jump_ids.len() - 1 {
                        let a = self.selected_jump_ids[pos];
                        let b = self.selected_jump_ids[pos + 1];
                        self.selected_jump_ids.set(pos, b);
                        self.selected_jump_ids.set(pos + 1, a);
                    }
                }
            }
        }
    }

    /// What saving writes: the source's id and its hops in order; nothing when
    /// the source has no id.
    pub fn save_request(&self) -> (r: Option<(i32, Vec<i32>)>)
        ensures
            match r {
                Some((sid, ids)) => self.source_connection_id == Some(sid) && ids@ == self.selected_jump_ids@,
                None => self.source_connection_id is None,
            },
    {
        match self.source_connection_id {
            Some(sid) => Some((sid, self.selected_jump_ids.clone())),
            None => None,
        }
    }

    /// Shows whether saving the hops worked; nothing when there was nothing
    /// to save.
    pub fn save(&mut self, saved: bool)
        ensures
            old(self).source_connection_id is Some ==> final(self)@ == (ProxyJumpsView {
                message: Some(if saved { "Saved successfully!"@ } else { "Failed to save."@ }),
                ..old(self)@
            }),
            old(self).source_connection_id is None ==> final(self)@ == old(self)@,
    {
        if self.source_connection_id.is_some() {
            if saved {
                self.message = Some(String::from_str("Saved successfully!"));
            } else {
                self.message = Some(String::from_str("Failed to save."));
            }
        }
    }

    /// Moves the cursor down the list, wrapping around.
    pub fn next(&mut self)
        ensures
            final(self)@ == (ProxyJumpsView {
                selected: next_selection(old(self).selected, old(self).available_connections@.len() as int),
                ..old(self)@
            }),
    {
        self.selected = step_down(self.selected, self.available_connections.len());
    }

    /// Moves the cursor up the list, wrapping around.
    pub fn previous(&mut self)
        ensures
            final(self)@ == (ProxyJumpsView {
                selected: previous_selection(old(self).selected, old(self).available_connections@.len() as int),
                ..old(self)@
            }),
    {
        self.selected = step_up(self.selected, self.available_connections.len());
    }
}

} // verus!
