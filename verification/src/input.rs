//! What each key does: the rules of the main screen and of the dialogs.
//!
//! A handler changes the app state itself and returns the work that needs the
//! store, the SSH agent or the terminal, in the order it is to be done.
use vstd::prelude::*;
use crate::app::{App, AppView, AppFocus, filter_refreshed, selected_connection, scrolled_up, scrolled_down, modal_closed, well_formed, dialogs_well_formed};
use crate::connection::ConnectionView;
use crate::modals::create_connection::{loaded_form, CreateConnectionView, with_field, active_text};
use crate::modals::delete_connection::{opened_dialog, DeleteConnectionView, closed_dialog};
use crate::modals::keys::{KeysView, add_key_request, opt_text_of};
use crate::modals::proxy_jumps::{ProxyJumpsView, edit_under_cursor, toggled, moved_earlier, moved_later};
use crate::modals::{next_selection, previous_selection, selection_in_bounds};
use crate::text::{insert_at_char, remove_char_before, min_int};

verus! {

/// The keys the manager reacts to.
#[derive(PartialEq, Eq, Structural, Clone, Copy, Debug)]
pub enum KeyCode {
    Tab,
    BackTab,
    Enter,
    Left,
    Right,
    Up,
    Down,
    PageUp,
    PageDown,
    Char(char),
    Backspace,
    Esc,
    Other,
}

/// A key press, with whether Control was held.
#[derive(PartialEq, Eq, Structural, Clone, Copy, Debug)]
pub struct KeyEvent {
    pub code: KeyCode,
    pub control: bool,
}

/// Work a key asks for beyond the app state.
pub enum Action {
    /// Leave the program.
    Quit,
    /// Read the sessions of the chosen connection again.
    RefreshConnectionHistory,
    /// Flip the favorite mark of stored connection number `conn_index`, whose
    /// id is `id`.
    ToggleFavorite { conn_index: usize, id: i32 },
    /// Open the jump host dialog for stored connection number `conn_index`.
    OpenProxyJumps { conn_index: usize },
    /// Save the jump hosts of the jump host dialog and read the connections
    /// again.
    SaveProxyJumps,
    /// Hand the key file at `path` to ssh-add.
    AddKeyToAgent { path: String },
    /// Start an SSH agent.
    StartAgent,
    /// Write the connection form to the store.
    SubmitConnection,
    /// Delete the connection of the delete dialog.
    DeleteConnection,
}

/// An action as values.
pub enum ActionView {
    Quit,
    RefreshConnectionHistory,
    ToggleFavorite { conn_index: usize, id: i32 },
    OpenProxyJumps { conn_index: usize },
    SaveProxyJumps,
    AddKeyToAgent { path: Seq<char> },
    StartAgent,
    SubmitConnection,
    DeleteConnection,
}

impl View for Action {
    type V = ActionView;

    open spec fn view(&self) -> ActionView {
        match self {
            Action::Quit => ActionView::Quit,
            Action::RefreshConnectionHistory => ActionView::RefreshConnectionHistory,
            Action::ToggleFavorite { conn_index, id } => ActionView::ToggleFavorite { conn_index: *conn_index, id: *id },
            Action::OpenProxyJumps { conn_index } => ActionView::OpenProxyJumps { conn_index: *conn_index },
            Action::SaveProxyJumps => ActionView::SaveProxyJumps,
            Action::AddKeyToAgent { path } => ActionView::AddKeyToAgent { path: path@ },
            Action::StartAgent => ActionView::StartAgent,
            Action::SubmitConnection => ActionView::SubmitConnection,
            Action::DeleteConnection => ActionView::DeleteConnection,
        }
    }
}

/// The views of actions.
pub open spec fn action_views(v: Seq<Action>) -> Seq<ActionView> {
    v.map_values(|a: Action| a@)
}

/// `post` is `m` with `c` typed at the search cursor and the matches
/// recomputed.
pub open spec fn typed_in_search(m: AppView, c: char, post: AppView) -> bool {
    filter_refreshed(
        AppView {
            input: m.input.insert(min_int(m.input_cursor as int, m.input.len() as int), c),
            input_cursor: (m.input_cursor + 1) as usize,
            ..m
        },
        post,
    )
}

/// What a key does on the main screen (no dialog open): the state after it
/// (`post`) and the work it asks for.
pub open spec fn main_key_outcome(pre: AppView, key: KeyEvent, post: AppView, acts: Seq<ActionView>) -> bool {
    let on_list = pre.focus == AppFocus::List;
    let on_search = pre.focus == AppFocus::Search;
    match key.code {
        KeyCode::Tab => {
            let f = if on_search { AppFocus::List } else { AppFocus::Search };
            &&& post == AppView { focus: f, ..pre }
            &&& acts == if f == AppFocus::List { seq![ActionView::RefreshConnectionHistory] } else { Seq::empty() }
        },
        KeyCode::Enter => if on_search {
            &&& post == AppView { focus: AppFocus::List, ..pre }
            &&& acts == seq![ActionView::RefreshConnectionHistory]
        } else {
            &&& post == AppView {
                pending_ssh_connection: match selected_connection(pre) {
                    Some(k) => Some(pre.connections[k]),
                    None => pre.pending_ssh_connection,
                },
                ..pre
            }
            &&& acts == Seq::<ActionView>::empty()
        },
        KeyCode::Left => {
            &&& post == AppView {
                input_cursor: if on_search { scrolled_up(pre.input_cursor, 1) } else { pre.input_cursor },
                ..pre
            }
            &&& acts == Seq::<ActionView>::empty()
        },
        KeyCode::Right => {
            &&& post == AppView {
                input_cursor: if on_search {
                    min_int(pre.input_cursor + 1, pre.input.len() as int) as usize
                } else {
                    pre.input_cursor
                },
                ..pre
            }
            &&& acts == Seq::<ActionView>::empty()
        },
        KeyCode::Up => if on_list && pre.selected_connection_index > 0 {
            &&& post == AppView { selected_connection_index: (pre.selected_connection_index - 1) as usize, ..pre }
            &&& acts == seq![ActionView::RefreshConnectionHistory]
        } else {
            post == pre && acts == Seq::<ActionView>::empty()
        },
        KeyCode::Down => if on_list && pre.selected_connection_index + 1 < pre.filtered_connections.len() {
            &&& post == AppView { selected_connection_index: (pre.selected_connection_index + 1) as usize, ..pre }
            &&& acts == seq![ActionView::RefreshConnectionHistory]
        } else {
            post == pre && acts == Seq::<ActionView>::empty()
        },
        KeyCode::PageUp => {
            &&& post == if on_search {
                AppView { history_scroll: scrolled_up(pre.history_scroll, 5), ..pre }
            } else {
                AppView { connection_history_scroll: scrolled_up(pre.connection_history_scroll, 5), ..pre }
            }
            &&& acts == Seq::<ActionView>::empty()
        },
        KeyCode::PageDown => {
            &&& post == if on_search {
                AppView { history_scroll: scrolled_down(pre.history_scroll, 5, pre.recent_history.len() as int), ..pre }
            } else {
                AppView {
                    connection_history_scroll: scrolled_down(
                        pre.connection_history_scroll,
                        5,
                        pre.connection_history.len() as int,
                    ),
                    ..pre
                }
            }
            &&& acts == Seq::<ActionView>::empty()
        },
        KeyCode::Char(c) => char_key_outcome(pre, c, key.control, post, acts),
        KeyCode::Backspace => {
            &&& acts == Seq::<ActionView>::empty()
            &&& if on_search {
                let mid = if pre.input_cursor > 0 {
                    AppView {
                        input: pre.input.remove(pre.input_cursor - 1),
                        input_cursor: (pre.input_cursor - 1) as usize,
                        ..pre
                    }
                } else {
                    pre
                };
                filter_refreshed(mid, post)
            } else {
                post == pre
            }
        },
        KeyCode::Esc => if pre.show_help_modal {
            post == AppView { show_help_modal: false, ..pre } && acts == Seq::<ActionView>::empty()
        } else {
            post == pre && acts == seq![ActionView::Quit]
        },
        KeyCode::BackTab | KeyCode::Other => post == pre && acts == Seq::<ActionView>::empty(),
    }
}

/// What a char key does on the main screen: Control-c quits, Control-n opens
/// the connection form, Control-d / Control-e / Control-p delete, edit or
/// configure the jump hosts of the chosen connection (list focus only),
/// Control-h and a plain '?' show or hide the help; on the list 'f' flips the
/// favorite mark and any other char moves to the search and types there; on
/// the search the char is typed at the cursor.
pub open spec fn char_key_outcome(pre: AppView, c: char, control: bool, post: AppView, acts: Seq<ActionView>) -> bool {
    let on_list = pre.focus == AppFocus::List;
    let chosen = if on_list { selected_connection(pre) } else { None };
    if control && c == 'c' {
        post == pre && acts == seq![ActionView::Quit]
    } else if control && c == 'n' {
        &&& post == AppView {
            create_connection_modal: CreateConnectionView { is_open: true, ..pre.create_connection_modal },
            ..pre
        }
        &&& acts == Seq::<ActionView>::empty()
    } else if control && c == 'd' {
        &&& post == match chosen {
            Some(k) => match pre.connections[k].id {
                Some(id) => AppView { delete_connection_modal: opened_dialog(id, pre.connections[k].name), ..pre },
                None => pre,
            },
            None => pre,
        }
        &&& acts == Seq::<ActionView>::empty()
    } else if control && c == 'e' {
        &&& post == match chosen {
            Some(k) => AppView { create_connection_modal: loaded_form(pre.connections[k]), ..pre },
            None => pre,
        }
        &&& acts == Seq::<ActionView>::empty()
    } else if control && c == 'p' {
        &&& post == pre
        &&& acts == match chosen {
            Some(k) => seq![ActionView::OpenProxyJumps { conn_index: k as usize }],
            None => Seq::empty(),
        }
    } else if (control && c == 'h') || (!control && c == '?') {
        post == AppView { show_help_modal: !pre.show_help_modal, ..pre } && acts == Seq::<ActionView>::empty()
    } else if on_list {
        if c == 'f' {
            &&& post == pre
            &&& acts == match selected_connection(pre) {
                Some(k) => match pre.connections[k].id {
                    Some(id) => seq![ActionView::ToggleFavorite { conn_index: k as usize, id: id }],
                    None => Seq::empty(),
                },
                None => Seq::empty(),
            }
        } else {
            &&& acts == Seq::<ActionView>::empty()
            &&& typed_in_search(
                AppView { focus: AppFocus::Search, input_cursor: pre.input.len() as usize, ..pre },
                c,
                post,
            )
        }
    } else {
        acts == Seq::<ActionView>::empty() && typed_in_search(pre, c, post)
    }
}

/// The key dialog's part of a key press in a dialog: the dialog after it and
/// the work it asks for.
pub open spec fn keys_dialog_step(k: KeysView, code: KeyCode) -> (KeysView, Seq<ActionView>) {
    match code {
        KeyCode::Esc => (KeysView { is_open: false, message: None, ..k }, Seq::empty()),
        KeyCode::Up => (KeysView { selected: previous_selection(k.selected, k.keys.len() as int), ..k }, Seq::empty()),
        KeyCode::Down => (KeysView { selected: next_selection(k.selected, k.keys.len() as int), ..k }, Seq::empty()),
        KeyCode::Enter => {
            let r = add_key_request(k);
            (r.1, match r.0 {
                Some(p) => seq![ActionView::AddKeyToAgent { path: p }],
                None => Seq::empty(),
            })
        },
        KeyCode::Char(c) => if c == 'a' { (k, seq![ActionView::StartAgent]) } else { (k, Seq::empty()) },
        _ => (k, Seq::empty()),
    }
}

/// The jump host dialog after a key press.
pub open spec fn proxy_dialog_step(p: ProxyJumpsView, code: KeyCode) -> ProxyJumpsView {
    match code {
        KeyCode::Esc => ProxyJumpsView {
            is_open: false,
            source_connection_id: None,
            source_connection_name: Seq::empty(),
            message: None,
            ..p
        },
        KeyCode::Up => ProxyJumpsView { selected: previous_selection(p.selected, p.available_connections.len() as int), ..p },
        KeyCode::Down => ProxyJumpsView { selected: next_selection(p.selected, p.available_connections.len() as int), ..p },
        KeyCode::Char(c) => if c == ' ' {
            edit_under_cursor(p, |ids: Seq<i32>, t: i32| toggled(ids, t))
        } else if c == '+' {
            edit_under_cursor(p, |ids: Seq<i32>, t: i32| moved_earlier(ids, t))
        } else if c == '-' {
            edit_under_cursor(p, |ids: Seq<i32>, t: i32| moved_later(ids, t))
        } else {
            p
        },
        _ => p,
    }
}

/// The delete dialog after a key press (Enter on "Yes" leaves it to the
/// deletion).
pub open spec fn delete_dialog_step(d: DeleteConnectionView, code: KeyCode) -> (DeleteConnectionView, Seq<ActionView>) {
    match code {
        KeyCode::Esc => (closed_dialog(), Seq::empty()),
        KeyCode::Left | KeyCode::Right | KeyCode::Tab | KeyCode::BackTab => (
            DeleteConnectionView { selected_yes: !d.selected_yes, ..d },
            Seq::empty(),
        ),
        KeyCode::Enter => if d.selected_yes {
            (d, seq![ActionView::DeleteConnection])
        } else {
            (closed_dialog(), Seq::empty())
        },
        _ => (d, Seq::empty()),
    }
}

/// The connection form's part of a key press: the app after it and the work
/// it asks for.
pub open spec fn form_step(a: AppView, code: KeyCode) -> (AppView, Seq<ActionView>) {
    let m = a.create_connection_modal;
    match code {
        KeyCode::Esc => (modal_closed(a), Seq::empty()),
        KeyCode::Tab => (
            AppView {
                create_connection_modal: CreateConnectionView { active_field: ((m.active_field + 1) % 7) as usize, ..m },
                ..a
            },
            Seq::empty(),
        ),
        KeyCode::BackTab => (
            AppView {
                create_connection_modal: CreateConnectionView {
                    active_field: if m.active_field == 0 { 6 } else { (m.active_field - 1) as usize },
                    ..m
                },
                ..a
            },
            Seq::empty(),
        ),
        KeyCode::Char(c) => (
            AppView { create_connection_modal: with_field(m, m.active_field as int, active_text(m).push(c)), ..a },
            Seq::empty(),
        ),
        KeyCode::Backspace => (
            AppView {
                create_connection_modal: with_field(
                    m,
                    m.active_field as int,
                    if active_text(m).len() > 0 { active_text(m).drop_last() } else { active_text(m) },
                ),
                ..a
            },
            Seq::empty(),
        ),
        KeyCode::Enter => (
            a,
            if m.active_field == 6 && m.name.len() > 0 && m.username.len() > 0 && m.hostname.len() > 0 {
                seq![ActionView::SubmitConnection]
            } else {
                Seq::empty()
            },
        ),
        _ => (a, Seq::empty()),
    }
}

/// What a key does while a dialog is open: Control-c quits; the key dialog,
/// when open, takes the key first; then the jump host dialog or else the
/// delete dialog takes it, or else the connection form.
pub open spec fn modal_key_outcome(pre: AppView, key: KeyEvent) -> (AppView, Seq<ActionView>) {
    if key.control && key.code == KeyCode::Char('c') {
        (pre, seq![ActionView::Quit])
    } else {
        let (k1, acts1) = if pre.keys_modal.is_open {
            keys_dialog_step(pre.keys_modal, key.code)
        } else {
            (pre.keys_modal, Seq::empty())
        };
        let a1 = AppView { keys_modal: k1, ..pre };
        if a1.proxy_jumps_modal.is_open {
            let p2 = proxy_dialog_step(a1.proxy_jumps_modal, key.code);
            let acts2 = if key.code == KeyCode::Enter { seq![ActionView::SaveProxyJumps] } else { Seq::empty() };
            (AppView { proxy_jumps_modal: p2, ..a1 }, acts1 + acts2)
        } else if a1.delete_connection_modal.is_open {
            let (d2, acts2) = delete_dialog_step(a1.delete_connection_modal, key.code);
            (AppView { delete_connection_modal: d2, ..a1 }, acts1 + acts2)
        } else {
            let (a2, acts2) = form_step(a1, key.code);
            (a2, acts1 + acts2)
        }
    }
}

/// Whether some dialog takes the keys.
pub open spec fn dialog_open(a: AppView) -> bool {
    a.create_connection_modal.is_open || a.keys_modal.is_open || a.delete_connection_modal.is_open
        || a.proxy_jumps_modal.is_open
}

/// A mouse press: whether it is the left button going down, and the row.
pub struct MouseEvent {
    pub left_down: bool,
    pub row: u16,
}

fn no_actions() -> (r: Vec<Action>)
    ensures
        action_views(r@) == Seq::<ActionView>::empty(),
{
    let r: Vec<Action> = Vec::new();
    assert(action_views(r@) =~= Seq::<ActionView>::empty());
    r
}

fn one_action(a: Action) -> (r: Vec<Action>)
    ensures
        action_views(r@) == seq![a@],
{
    let mut r: Vec<Action> = Vec::new();
    r.push(a);
    assert(action_views(r@) =~= seq![a@]);
    r
}

fn type_into_search(app: &mut App, c: char)
    requires
        dialogs_well_formed(old(app)@),
    ensures
        typed_in_search(old(app)@, c, final(app)@),
        well_formed(final(app)@),
{
    let cur = app.input_cursor;
    insert_at_char(&mut app.input, cur, c);
    let _len = app.input.as_str().unicode_len();
    app.input_cursor = cur + 1;
    app.update_search_filter();
}

/// The stored connection under the list cursor, when the list has focus.
fn chosen_on_list(app: &App) -> (r: Option<usize>)
    requires
        well_formed(app@),
    ensures
        r == (if app@.focus == AppFocus::List {
            match selected_connection(app@) {
                Some(k) => Some(k as usize),
                None => None,
            }
        } else {
            None
        }),
        r matches Some(k) ==> k < app@.connections.len(),
{
    if app.focus == AppFocus::List && app.selected_connection_index < app.filtered_connections.len() {
        let k = app.filtered_connections[app.selected_connection_index].conn_index;
        assert(app@.filtered_connections[app.selected_connection_index as int].conn_index == k);
        Some(k)
    } else {
        None
    }
}

/// Handles a key on the main screen (see `main_key_outcome`).
pub fn handle_main_input(app: &mut App, key: KeyEvent) -> (r: Vec<Action>)
    requires
        well_formed(old(app)@),
        key.code == KeyCode::PageDown ==> old(app).history_scroll + 5 <= usize::MAX
            && old(app).connection_history_scroll + 5 <= usize::MAX,
    ensures
        main_key_outcome(old(app)@, key, final(app)@, action_views(r@)),
        well_formed(final(app)@),
{
    let mut acts: Vec<Action> = no_actions();
    match key.code {
        KeyCode::Tab => {
            app.focus = if app.focus == AppFocus::Search { AppFocus::List } else { AppFocus::Search };
            if app.focus == AppFocus::List {
                acts = one_action(Action::RefreshConnectionHistory);
            }
        },
        KeyCode::Enter => {
            if app.focus == AppFocus::Search {
                app.focus = AppFocus::List;
                acts = one_action(Action::RefreshConnectionHistory);
            } else if app.selected_connection_index < app.filtered_connections.len() {
                let k = app.filtered_connections[app.selected_connection_index].conn_index;
                assert(app@.filtered_connections[app.selected_connection_index as int].conn_index == k);
                app.pending_ssh_connection = Some(app.connections[k].clone());
            }
        },
        KeyCode::Left => {
            if app.focus == AppFocus::Search {
                app.input_cursor = if app.input_cursor >= 1 { app.input_cursor - 1 } else { 0 };
            }
        },
        KeyCode::Right => {
            if app.focus == AppFocus::Search {
                let len = app.input.as_str().unicode_len();
                app.input_cursor = if app.input_cursor < len { app.input_cursor + 1 } else { len };
            }
        },
        KeyCode::Up => {
            if app.focus == AppFocus::List && app.selected_connection_index > 0 {
                app.selected_connection_index = app.selected_connection_index - 1;
                acts = one_action(Action::RefreshConnectionHistory);
            }
        },
        KeyCode::Down => {
            let len = app.filtered_connections.len();
            if app.focus == AppFocus::List && len > 0 && app.selected_connection_index < len - 1 {
                app.selected_connection_index = app.selected_connection_index + 1;
                acts = one_action(Action::RefreshConnectionHistory);
            }
        },
        KeyCode::PageUp => {
            if app.focus == AppFocus::Search {
                app.scroll_history_up(5);
            } else {
                app.scroll_connection_history_up(5);
            }
        },
        KeyCode::PageDown => {
            if app.focus == AppFocus::Search {
                app.scroll_history_down(5);
            } else {
                app.scroll_connection_history_down(5);
            }
        },
        KeyCode::Char(c) => {
            if key.control && c == 'c' {
                acts = one_action(Action::Quit);
            } else if key.control && c == 'n' {
                app.create_connection_modal.is_open = true;
            } else if key.control && c == 'd' {
                if let Some(k) = chosen_on_list(app) {
                    if let Some(id) = app.connections[k].id {
                        let name = app.connections[k].name.clone();
                        app.delete_connection_modal.open(id, name);
                    }
                }
            } else if key.control && c == 'e' {
                if let Some(k) = chosen_on_list(app) {
                    let conn = app.connections[k].clone();
                    app.create_connection_modal.load_connection(&conn);
                }
            } else if key.control && c == 'p' {
                if let Some(k) = chosen_on_list(app) {
                    acts = one_action(Action::OpenProxyJumps { conn_index: k });
                }
            } else if (key.control && c == 'h') || (!key.control && c == '?') {
                app.show_help_modal = !app.show_help_modal;
            } else if app.focus == AppFocus::List {
                if c == 'f' {
                    if let Some(k) = chosen_on_list(app) {
                        if let Some(id) = app.connections[k].id {
                            acts = one_action(Action::ToggleFavorite { conn_index: k, id });
                        }
                    }
                } else {
                    app.focus = AppFocus::Search;
                    app.input_cursor = app.input.as_str().unicode_len();
                    type_into_search(app, c);
                }
            } else {
                type_into_search(app, c);
            }
        },
        KeyCode::Backspace => {
            if app.focus == AppFocus::Search {
                if app.input_cursor > 0 {
                    let cur = app.input_cursor;
                    remove_char_before(&mut app.input, cur);
                    app.input_cursor = cur - 1;
                }
                app.update_search_filter();
            }
        },
        KeyCode::Esc => {
            if app.show_help_modal {
                app.show_help_modal = false;
            } else {
                acts = one_action(Action::Quit);
            }
        },
        _ => {},
    }
    acts
}

fn append_actions(acts: &mut Vec<Action>, more: Vec<Action>)
    ensures
        action_views(final(acts)@) == action_views(old(acts)@) + action_views(more@),
{
    let mut more = more;
    let ghost a0 = old(acts)@;
    let ghost m0 = more@;
    acts.append(&mut more);
    assert(action_views(acts@) =~= action_views(a0) + action_views(m0));
}

/// Handles a key while a dialog is open (see `modal_key_outcome`).
pub fn handle_modal_input(app: &mut App, key: KeyEvent) -> (r: Vec<Action>)
    requires
        well_formed(old(app)@),
    ensures
        (final(app)@, action_views(r@)) == modal_key_outcome(old(app)@, key),
        well_formed(final(app)@),
{
    if key.control && key.code == KeyCode::Char('c') {
        return one_action(Action::Quit);
    }
    let mut acts = no_actions();
    if app.keys_modal.is_open {
        match key.code {
            KeyCode::Esc => app.keys_modal.close(),
            KeyCode::Up => app.keys_modal.previous(),
            KeyCode::Down => app.keys_modal.next(),
            KeyCode::Enter => {
                if let Some(path) = app.keys_modal.add_selected_to_agent() {
                    acts = one_action(Action::AddKeyToAgent { path });
                }
            },
            KeyCode::Char(c) => {
                if c == 'a' {
                    acts = one_action(Action::StartAgent);
                }
            },
            _ => {},
        }
    }
    if app.proxy_jumps_modal.is_open {
        match key.code {
            KeyCode::Esc => app.proxy_jumps_modal.close(),
            KeyCode::Up => app.proxy_jumps_modal.previous(),
            KeyCode::Down => app.proxy_jumps_modal.next(),
            KeyCode::Char(c) => {
                if c == ' ' {
                    app.proxy_jumps_modal.toggle_selected();
                } else if c == '+' {
                    app.proxy_jumps_modal.move_up();
                } else if c == '-' {
                    app.proxy_jumps_modal.move_down();
                }
            },
            KeyCode::Enter => append_actions(&mut acts, one_action(Action::SaveProxyJumps)),
            _ => {},
        }
        return acts;
    }
    if app.delete_connection_modal.is_open {
        match key.code {
            KeyCode::Esc => app.delete_connection_modal.close(),
            KeyCode::Left | KeyCode::Right | KeyCode::Tab | KeyCode::BackTab => {
                app.delete_connection_modal.toggle_answer();
            },
            KeyCode::Enter => {
                if app.delete_connection_modal.selected_yes {
                    append_actions(&mut acts, one_action(Action::DeleteConnection));
                } else {
                    app.delete_connection_modal.close();
                }
            },
            _ => {},
        }
        return acts;
    }
    match key.code {
        KeyCode::Esc => app.close_modal(),
        KeyCode::Tab => app.create_connection_modal.next_field(),
        KeyCode::BackTab => app.create_connection_modal.previous_field(),
        KeyCode::Char(c) => app.create_connection_modal.push_to_active_field(c),
        KeyCode::Backspace => app.create_connection_modal.pop_from_active_field(),
        KeyCode::Enter => {
            if app.create_connection_modal.active_field == 6 && app.create_connection_modal.is_valid() {
                append_actions(&mut acts, one_action(Action::SubmitConnection));
            }
        },
        _ => {},
    }
    acts
}

/// Handles a key: a dialog takes it when one is open, else the main screen.
pub fn handle_key_event(app: &mut App, key: KeyEvent) -> (r: Vec<Action>)
    requires
        well_formed(old(app)@),
        key.code == KeyCode::PageDown ==> old(app).history_scroll + 5 <= usize::MAX
            && old(app).connection_history_scroll + 5 <= usize::MAX,
    ensures
        dialog_open(old(app)@) ==> (final(app)@, action_views(r@)) == modal_key_outcome(old(app)@, key),
        !dialog_open(old(app)@) ==> main_key_outcome(old(app)@, key, final(app)@, action_views(r@)),
        well_formed(final(app)@),
{
    if app.create_connection_modal.is_open || app.keys_modal.is_open || app.delete_connection_modal.is_open
        || app.proxy_jumps_modal.is_open {
        handle_modal_input(app, key)
    } else {
        handle_main_input(app, key)
    }
}

/// Handles a mouse press: a left click in the top rows gives the search the
/// focus, one further down the list. It never asks to quit.
pub fn handle_mouse_event(app: &mut App, mouse: MouseEvent) -> (r: bool)
    ensures
        !r,
        final(app)@ == if mouse.left_down {
            AppView { focus: if mouse.row < 4 { AppFocus::Search } else { AppFocus::List }, ..old(app)@ }
        } else {
            old(app)@
        },
{
    if mouse.left_down {
        if mouse.row < 4 {
            app.focus = AppFocus::Search;
        } else {
            app.focus = AppFocus::List;
        }
    }
    false
}

/// Control-c quits from the main screen and from every dialog, changing
/// nothing.
pub proof fn lemma_ctrl_c_quits(a: AppView, post: AppView, acts: Seq<ActionView>)
    ensures
        main_key_outcome(a, KeyEvent { code: KeyCode::Char('c'), control: true }, post, acts) ==> post == a
            && acts == seq![ActionView::Quit],
        modal_key_outcome(a, KeyEvent { code: KeyCode::Char('c'), control: true }) == (a, seq![ActionView::Quit]),
{
}

/// Esc on the main screen closes the help when it is shown, and otherwise
/// quits.
pub proof fn lemma_esc_on_main_screen(a: AppView, post: AppView, acts: Seq<ActionView>)
    requires
        main_key_outcome(a, KeyEvent { code: KeyCode::Esc, control: false }, post, acts),
    ensures
        a.show_help_modal ==> !post.show_help_modal && acts.len() == 0,
        !a.show_help_modal ==> post == a && acts == seq![ActionView::Quit],
{
}

/// Tab on the main screen switches the focus between search and list; two
/// Tabs give back the screen as it was.
pub proof fn lemma_tab_twice(a: AppView, p1: AppView, acts1: Seq<ActionView>, p2: AppView, acts2: Seq<ActionView>)
    requires
        main_key_outcome(a, KeyEvent { code: KeyCode::Tab, control: false }, p1, acts1),
        main_key_outcome(p1, KeyEvent { code: KeyCode::Tab, control: false }, p2, acts2),
    ensures
        p1.focus != a.focus,
        p2 == a,
{
}

/// In the connection form, Tab then Shift-Tab comes back to the same field.
pub proof fn lemma_form_tab_back(a: AppView)
    requires
        a.create_connection_modal.active_field <= 6,
    ensures
        form_step(form_step(a, KeyCode::Tab).0, KeyCode::BackTab).0 == a,
        form_step(a, KeyCode::Tab).0.create_connection_modal.active_field <= 6,
{
    let m = a.create_connection_modal;
    assert(form_step(form_step(a, KeyCode::Tab).0, KeyCode::BackTab).0.create_connection_modal =~= m);
}

/// In the delete dialog, a second press of an arrow key takes back the first.
pub proof fn lemma_answer_toggle_twice(d: DeleteConnectionView)
    ensures
        delete_dialog_step(delete_dialog_step(d, KeyCode::Left).0, KeyCode::Right).0 == d,
{
}

/// Typing a char into the search and then deleting it with backspace gives
/// back the same search text, the same cursor and the same list of matches.
pub proof fn lemma_type_then_backspace_in_search(
    m: AppView,
    c: char,
    p1: AppView,
    p2: AppView,
    acts: Seq<ActionView>,
)
    requires
        m.focus == AppFocus::Search,
        m.input_cursor <= m.input.len(),
        m.input_cursor < usize::MAX,
        ranked_matches_of(m),
        typed_in_search(m, c, p1),
        main_key_outcome(p1, KeyEvent { code: KeyCode::Backspace, control: false }, p2, acts),
    ensures
        p2.input == m.input,
        p2.input_cursor == m.input_cursor,
        p2.filtered_connections == m.filtered_connections,
{
    let k = m.input_cursor as int;
    assert(m.input.insert(k, c).remove(k) =~= m.input);
    let mid = AppView { input: m.input, input_cursor: m.input_cursor, ..p1 };
    assert(mid.connections == m.connections);
    assert(crate::app::candidates(mid) == crate::app::candidates(m));
    crate::app::lemma_ranked_matches_unique(m, p2.filtered_connections, m.filtered_connections);
}

/// The list cursor is on the match list, or at 0 when nothing matches.
pub open spec fn list_cursor_on_matches(a: AppView) -> bool {
    if a.filtered_connections.len() == 0 {
        a.selected_connection_index == 0
    } else {
        a.selected_connection_index < a.filtered_connections.len()
    }
}

/// Every key on the main screen keeps the list cursor on the match list and
/// the search cursor within the search text.
pub proof fn lemma_main_keys_keep_cursors(pre: AppView, key: KeyEvent, post: AppView, acts: Seq<ActionView>)
    requires
        main_key_outcome(pre, key, post, acts),
        list_cursor_on_matches(pre),
        pre.input_cursor <= pre.input.len(),
    ensures
        list_cursor_on_matches(post),
        post.input_cursor <= post.input.len(),
{
    match key.code {
        KeyCode::Char(c) => {
            let on_list = pre.focus == AppFocus::List;
            if !(key.control && (c == 'c' || c == 'n' || c == 'd' || c == 'e' || c == 'p' || c == 'h'))
                && !(!key.control && c == '?') && !(on_list && c == 'f') {
                let m = if on_list {
                    AppView { focus: AppFocus::Search, input_cursor: pre.input.len() as usize, ..pre }
                } else {
                    pre
                };
                let k = min_int(m.input_cursor as int, m.input.len() as int);
                let mid = AppView { input: m.input.insert(k, c), input_cursor: (m.input_cursor + 1) as usize, ..m };
                crate::app::lemma_cursor_on_matches(mid, post);
            }
        },
        KeyCode::Backspace => {
            if pre.focus == AppFocus::Search {
                let mid = if pre.input_cursor > 0 {
                    AppView {
                        input: pre.input.remove(pre.input_cursor - 1),
                        input_cursor: (pre.input_cursor - 1) as usize,
                        ..pre
                    }
                } else {
                    pre
                };
                crate::app::lemma_cursor_on_matches(mid, post);
            }
        },
        _ => {},
    }
}

/// A scroll position five entries back, stopping at the first entry.
pub open spec fn five_back(s: int) -> int {
    if s >= 5 {
        s - 5
    } else {
        0
    }
}

/// A scroll position five entries on, stopping at the last of `len` entries.
pub open spec fn five_on(s: int, len: int) -> int {
    if len == 0 {
        0
    } else if s + 5 >= len {
        len - 1
    } else {
        s + 5
    }
}

/// PageUp and PageDown on the main screen scroll the panel that has the
/// focus by five entries: with the search focused the recent sessions, with
/// the list focused the chosen connection's sessions. The other scroll
/// position and everything else stay as they were; scrolling stops at the
/// first and at the last entry.
pub proof fn lemma_page_keys_scroll_focused_panel(pre: AppView, key: KeyEvent, post: AppView, acts: Seq<ActionView>)
    requires
        main_key_outcome(pre, key, post, acts),
        key.code == KeyCode::PageUp || key.code == KeyCode::PageDown,
        pre.history_scroll + 5 <= usize::MAX,
        pre.connection_history_scroll + 5 <= usize::MAX,
    ensures
        acts.len() == 0,
        pre.focus == AppFocus::Search ==> post == (AppView { history_scroll: post.history_scroll, ..pre }),
        pre.focus == AppFocus::List ==> post == (AppView {
            connection_history_scroll: post.connection_history_scroll,
            ..pre
        }),
        pre.focus == AppFocus::Search && key.code == KeyCode::PageUp ==> post.history_scroll == five_back(
            pre.history_scroll as int,
        ),
        pre.focus == AppFocus::List && key.code == KeyCode::PageUp ==> post.connection_history_scroll
            == five_back(pre.connection_history_scroll as int),
        pre.focus == AppFocus::Search && key.code == KeyCode::PageDown ==> post.history_scroll == five_on(
            pre.history_scroll as int,
            pre.recent_history.len() as int,
        ),
        pre.focus == AppFocus::List && key.code == KeyCode::PageDown ==> post.connection_history_scroll
            == five_on(pre.connection_history_scroll as int, pre.connection_history.len() as int),
{
}

/// The match list of `a` is the ranked list of its own search.
pub open spec fn ranked_matches_of(a: AppView) -> bool {
    crate::app::ranked_matches(a, a.filtered_connections)
}

} // verus!
