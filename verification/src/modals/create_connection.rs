//! The form that creates or edits a connection.
use vstd::prelude::*;
use crate::connection::{Connection, ConnectionView};
use crate::number::{format_i32, parse_i32, decimal_text, parsed_i32};
use crate::text::{insert_at_char, remove_char_before, push_char, pop_char, is_blank, min_int};

verus! {

/// Number of text fields of the form; the position after them is the submit
/// button.
pub const FIELD_COUNT: usize = 6;

/// The create/edit form: six text fields (name, user name, host name, port,
/// identity file, note), the submit button as position 6, a cursor within the
/// active field, and the id of the connection being edited, if any.
pub struct CreateConnectionModal {
    pub is_open: bool,
    pub name: String,
    pub username: String,
    pub hostname: String,
    pub port: String,
    pub identity_file: String,
    pub note: String,
    pub active_field: usize,
    pub field_cursor: usize,
    pub editing_connection_id: Option<i32>,
}

/// The form as values.
pub struct CreateConnectionView {
    pub is_open: bool,
    pub name: Seq<char>,
    pub username: Seq<char>,
    pub hostname: Seq<char>,
    pub port: Seq<char>,
    pub identity_file: Seq<char>,
    pub note: Seq<char>,
    pub active_field: usize,
    pub field_cursor: usize,
    pub editing_connection_id: Option<i32>,
}

impl View for CreateConnectionModal {
    type V = CreateConnectionView;

    open spec fn view(&self) -> CreateConnectionView {
        CreateConnectionView {
            is_open: self.is_open,
            name: self.name@,
            username: self.username@,
            hostname: self.hostname@,
            port: self.port@,
            identity_file: self.identity_file@,
            note: self.note@,
            active_field: self.active_field,
            field_cursor: self.field_cursor,
            editing_connection_id: self.editing_connection_id,
        }
    }
}

/// The text of field `k` (empty for the submit button and beyond).
pub open spec fn field_text(m: CreateConnectionView, k: int) -> Seq<char> {
    if k == 0 {
        m.name
    } else if k == 1 {
        m.username
    } else if k == 2 {
        m.hostname
    } else if k == 3 {
        m.port
    } else if k == 4 {
        m.identity_file
    } else if k == 5 {
        m.note
    } else {
        Seq::empty()
    }
}

/// The form with the text of field `k` replaced (unchanged for the submit
/// button and beyond).
pub open spec fn with_field(m: CreateConnectionView, k: int, t: Seq<char>) -> CreateConnectionView {
    if k == 0 {
        CreateConnectionView { name: t, ..m }
    } else if k == 1 {
        CreateConnectionView { username: t, ..m }
    } else if k == 2 {
        CreateConnectionView { hostname: t, ..m }
    } else if k == 3 {
        CreateConnectionView { port: t, ..m }
    } else if k == 4 {
        CreateConnectionView { identity_file: t, ..m }
    } else if k == 5 {
        CreateConnectionView { note: t, ..m }
    } else {
        m
    }
}

/// The text of the active field.
pub open spec fn active_text(m: CreateConnectionView) -> Seq<char> {
    field_text(m, m.active_field as int)
}

/// The cursor lies within the active field (or at its end).
pub open spec fn cursor_in_field(m: CreateConnectionView) -> bool {
    m.field_cursor <= active_text(m).len()
}

/// The closed, empty form with the user name preset.
pub open spec fn blank_form(default_username: Seq<char>) -> CreateConnectionView {
    CreateConnectionView {
        is_open: false,
        name: Seq::empty(),
        username: default_username,
        hostname: Seq::empty(),
        port: Seq::empty(),
        identity_file: Seq::empty(),
        note: Seq::empty(),
        active_field: 0,
        field_cursor: 0,
        editing_connection_id: None,
    }
}

/// The text an optional value shows in a field.
pub open spec fn text_or_empty(t: Option<Seq<char>>) -> Seq<char> {
    match t {
        Some(s) => s,
        None => Seq::empty(),
    }
}

/// The form filled in from a saved connection, open, with the cursor at the
/// end of the name.
pub open spec fn loaded_form(c: ConnectionView) -> CreateConnectionView {
    CreateConnectionView {
        is_open: true,
        name: c.name,
        username: c.username,
        hostname: c.hostname,
        port: match c.port {
            Some(p) => decimal_text(p as int),
            None => Seq::empty(),
        },
        identity_file: text_or_empty(c.identity_file),
        note: text_or_empty(c.note),
        active_field: 0,
        field_cursor: c.name.len() as usize,
        editing_connection_id: c.id,
    }
}

/// The form after typing `c` at the cursor: the char goes into the active
/// field at the cursor (at the end when the cursor is past it) and the cursor
/// moves past it; on the submit button nothing changes.
pub open spec fn typed_at_cursor(m: CreateConnectionView, c: char) -> CreateConnectionView {
    if m.active_field < FIELD_COUNT {
        CreateConnectionView {
            field_cursor: (m.field_cursor + 1) as usize,
            ..with_field(
                m,
                m.active_field as int,
                active_text(m).insert(min_int(m.field_cursor as int, active_text(m).len() as int), c),
            )
        }
    } else {
        m
    }
}

/// The form after a backspace at the cursor: the char before the cursor leaves
/// the active field and the cursor moves back; at the start nothing changes.
pub open spec fn erased_before_cursor(m: CreateConnectionView) -> CreateConnectionView {
    if m.field_cursor == 0 {
        m
    } else {
        CreateConnectionView {
            field_cursor: (m.field_cursor - 1) as usize,
            ..with_field(
                m,
                m.active_field as int,
                if m.field_cursor <= active_text(m).len() {
                    active_text(m).remove(m.field_cursor - 1)
                } else {
                    active_text(m)
                },
            )
        }
    }
}

/// The form with the cursor one char further left, stopping at the start.
pub open spec fn cursor_moved_left(m: CreateConnectionView) -> CreateConnectionView {
    if m.active_field < FIELD_COUNT && m.field_cursor > 0 {
        CreateConnectionView { field_cursor: (m.field_cursor - 1) as usize, ..m }
    } else {
        m
    }
}

/// The form with the cursor one char further right, stopping at the end of
/// the active field.
pub open spec fn cursor_moved_right(m: CreateConnectionView) -> CreateConnectionView {
    if m.active_field < FIELD_COUNT {
        CreateConnectionView {
            field_cursor: min_int(m.field_cursor + 1, active_text(m).len() as int) as usize,
            ..m
        }
    } else {
        m
    }
}

/// Typing a char at the cursor and then pressing backspace gives back the
/// form as it was, whenever the cursor lies within the active field.
pub proof fn lemma_type_then_erase(m: CreateConnectionView, c: char)
    requires
        cursor_in_field(m),
        m.field_cursor < usize::MAX,
    ensures
        erased_before_cursor(typed_at_cursor(m, c)) == m,
{
    if m.active_field < FIELD_COUNT {
        let t = active_text(m);
        let k = m.field_cursor as int;
        let m1 = typed_at_cursor(m, c);
        assert(active_text(m1) == t.insert(k, c));
        assert(t.insert(k, c).remove(k) =~= t);
        assert(erased_before_cursor(m1) =~= m);
    }
}

/// Every cursor movement, typing and erasing keeps the cursor within the
/// active field.
pub proof fn lemma_cursor_stays_in_field(m: CreateConnectionView, c: char)
    requires
        cursor_in_field(m),
        m.field_cursor < usize::MAX,
    ensures
        cursor_in_field(cursor_moved_left(m)),
        cursor_in_field(cursor_moved_right(m)),
        cursor_in_field(typed_at_cursor(m, c)),
        cursor_in_field(erased_before_cursor(m)),
{
    if m.active_field < FIELD_COUNT {
        let t = active_text(m);
        assert(active_text(typed_at_cursor(m, c)) == t.insert(m.field_cursor as int, c));
        if m.field_cursor > 0 {
            assert(active_text(erased_before_cursor(m)) == t.remove(m.field_cursor - 1));
        }
    }
}

/// Loading a saved connection into the form and submitting it unchanged
/// writes that connection's fields back: the port reads back as the same
/// number, and identity file and note come back as they were, provided they
/// were not stored as empty texts.
pub proof fn lemma_load_then_submit(c: ConnectionView)
    requires
        c.identity_file != Some(Seq::<char>::empty()),
        c.note != Some(Seq::<char>::empty()),
    ensures
        draft_of(loaded_form(c)) == (ConnectionDraftView {
            editing_connection_id: c.id,
            name: c.name,
            username: c.username,
            hostname: c.hostname,
            port: c.port,
            identity_file: c.identity_file,
            note: c.note,
        }),
{
    if let Some(p) = c.port {
        crate::number::lemma_parse_format_roundtrip(p);
        crate::number::lemma_decimal_text_nonempty(p as int);
    }
    if let Some(t) = c.identity_file {
        assert(t.len() != 0 || t =~= Seq::<char>::empty());
    }
    if let Some(t) = c.note {
        assert(t.len() != 0 || t =~= Seq::<char>::empty());
    }
}

/// What submitting the form writes: the fields, with the port parsed (a
/// port that does not parse is left out) and empty optional fields left out.
pub struct ConnectionDraft {
    pub editing_connection_id: Option<i32>,
    pub name: String,
    pub username: String,
    pub hostname: String,
    pub port: Option<i32>,
    pub identity_file: Option<String>,
    pub note: Option<String>,
}

/// A draft as values.
pub struct ConnectionDraftView {
    pub editing_connection_id: Option<i32>,
    pub name: Seq<char>,
    pub username: Seq<char>,
    pub hostname: Seq<char>,
    pub port: Option<i32>,
    pub identity_file: Option<Seq<char>>,
    pub note: Option<Seq<char>>,
}

impl View for ConnectionDraft {
    type V = ConnectionDraftView;

    open spec fn view(&self) -> ConnectionDraftView {
        ConnectionDraftView {
            editing_connection_id: self.editing_connection_id,
            name: self.name@,
            username: self.username@,
            hostname: self.hostname@,
            port: self.port,
            identity_file: crate::connection::opt_text(self.identity_file),
            note: crate::connection::opt_text(self.note),
        }
    }
}

/// An optional text that is absent when empty.
pub open spec fn none_if_empty(t: Seq<char>) -> Option<Seq<char>> {
    if t.len() == 0 {
        None
    } else {
        Some(t)
    }
}

/// The draft a form gives.
pub open spec fn draft_of(m: CreateConnectionView) -> ConnectionDraftView {
    ConnectionDraftView {
        editing_connection_id: m.editing_connection_id,
        name: m.name,
        username: m.username,
        hostname: m.hostname,
        port: if m.port.len() == 0 {
            None
        } else {
            parsed_i32(m.port)
        },
        identity_file: none_if_empty(m.identity_file),
        note: none_if_empty(m.note),
    }
}

fn text_of_option(t: &Option<String>) -> (r: String)
    ensures
        r@ == text_or_empty(crate::connection::opt_text(*t)),
{
    match t {
        Some(s) => s.clone(),
        None => String::new(),
    }
}

fn option_of_text(t: &String) -> (r: Option<String>)
    ensures
        crate::connection::opt_text(r) == none_if_empty(t@),
{
    if is_blank(t) {
        None
    } else {
        Some(t.clone())
    }
}

impl CreateConnectionModal {
    /// The closed, empty form; the user name field starts with
    /// `default_username` (the login name of whoever runs the program).
    pub fn new(default_username: String) -> (r: Self)
        ensures
            r@ == blank_form(default_username@),
    {
        CreateConnectionModal {
            is_open: false,
            name: String::new(),
            username: default_username,
            hostname: String::new(),
            port: String::new(),
            identity_file: String::new(),
            note: String::new(),
            active_field: 0,
            field_cursor: 0,
            editing_connection_id: None,
        }
    }

    /// Fills the form from a saved connection to edit it, and opens it.
    pub fn load_connection(&mut self, conn: &Connection)
        ensures
            final(self)@ == loaded_form(conn@),
    {
        self.editing_connection_id = conn.id;
        self.name = conn.name.clone();
        self.username = conn.username.clone();
        self.hostname = conn.hostname.clone();
        self.port = match conn.port {
            Some(p) => format_i32(p),
            None => String::new(),
        };
        self.identity_file = text_of_option(&conn.identity_file);
        self.note = text_of_option(&conn.note);
        self.active_field = 0;
        self.field_cursor = self.name.as_str().unicode_len();
        self.is_open = true;
    }

    /// Empties the form (keeping whether it is open), with the user name
    /// preset to `default_username`.
    pub fn reset(&mut self, default_username: String)
        ensures
            final(self)@ == (CreateConnectionView { is_open: old(self).is_open, ..blank_form(default_username@) }),
    {
        self.name = String::new();
        self.username = default_username;
        self.hostname = String::new();
        self.port = String::new();
        self.identity_file = String::new();
        self.note = String::new();
        self.active_field = 0;
        self.field_cursor = 0;
        self.editing_connection_id = None;
    }

    /// Whether name, user name and host name are all filled in.
    pub fn is_valid(&self) -> (r: bool)
        ensures
            r == (self.name@.len() > 0 && self.username@.len() > 0 && self.hostname@.len() > 0),
    {
        !is_blank(&self.name) && !is_blank(&self.username) && !is_blank(&self.hostname)
    }

    /// Number of chars in the active field (0 on the submit button).
    pub fn active_field_len(&self) -> (r: usize)
        ensures
            r == active_text(self@).len(),
    {
        match self.active_field {
            0 => self.name.as_str().unicode_len(),
            1 => self.username.as_str().unicode_len(),
            2 => self.hostname.as_str().unicode_len(),
            3 => self.port.as_str().unicode_len(),
            4 => self.identity_file.as_str().unicode_len(),
            5 => self.note.as_str().unicode_len(),
            _ => 0,
        }
    }

    /// Moves the cursor one char left, stopping at the start; nothing on the
    /// submit button.
    pub fn move_cursor_left(&mut self)
        ensures
            final(self)@ == cursor_moved_left(old(self)@),
    {
        if self.active_field < FIELD_COUNT {
            if self.field_cursor > 0 {
                self.field_cursor = self.field_cursor - 1;
            }
        }
    }

    /// Moves the cursor one char right, stopping at the end of the field;
    /// nothing on the submit button.
    pub fn move_cursor_right(&mut self)
        requires
            old(self).active_field < FIELD_COUNT ==> old(self).field_cursor < usize::MAX,
        ensures
            final(self)@ == cursor_moved_right(old(self)@),
    {
        if self.active_field < FIELD_COUNT {
            let len = self.active_field_len();
            let next = self.field_cursor + 1;
            self.field_cursor = if next < len { next } else { len };
        }
    }

    /// Puts the cursor at the end of the active field.
    pub fn cursor_to_end(&mut self)
        ensures
            final(self)@ == (CreateConnectionView {
                field_cursor: active_text(old(self)@).len() as usize,
                ..old(self)@
            }),
    {
        self.field_cursor = self.active_field_len();
    }

    /// Types `c` at the cursor of the active field and moves the cursor past
    /// it; nothing on the submit button.
    pub fn insert_char_at_cursor(&mut self, c: char)
        requires
            old(self).active_field < FIELD_COUNT ==> old(self).field_cursor < usize::MAX,
        ensures
            final(self)@ == typed_at_cursor(old(self)@, c),
    {
        let pos = self.field_cursor;
        match self.active_field {
            0 => insert_at_char(&mut self.name, pos, c),
            1 => insert_at_char(&mut self.username, pos, c),
            2 => insert_at_char(&mut self.hostname, pos, c),
            3 => insert_at_char(&mut self.port, pos, c),
            4 => insert_at_char(&mut self.identity_file, pos, c),
            5 => insert_at_char(&mut self.note, pos, c),
            _ => {},
        }
        if self.active_field < FIELD_COUNT {
            self.field_cursor = self.field_cursor + 1;
        }
    }

    /// Deletes the char before the cursor in the active field and moves the
    /// cursor back; nothing at the start of a field.
    pub fn backspace_at_cursor(&mut self)
        ensures
            final(self)@ == erased_before_cursor(old(self)@),
    {
        if self.field_cursor == 0 {
            return;
        }
        let pos = self.field_cursor;
        match self.active_field {
            0 => remove_char_before(&mut self.name, pos),
            1 => remove_char_before(&mut self.username, pos),
            2 => remove_char_before(&mut self.hostname, pos),
            3 => remove_char_before(&mut self.port, pos),
            4 => remove_char_before(&mut self.identity_file, pos),
            5 => remove_char_before(&mut self.note, pos),
            _ => {},
        }
        self.field_cursor = self.field_cursor - 1;
    }

    /// Appends `c` to the end of the active field (what typing in the form
    /// does); nothing on the submit button.
    pub fn push_to_active_field(&mut self, c: char)
        ensures
            final(self)@ == with_field(old(self)@, old(self).active_field as int, active_text(old(self)@).push(c)),
    {
        match self.active_field {
            0 => push_char(&mut self.name, c),
            1 => push_char(&mut self.username, c),
            2 => push_char(&mut self.hostname, c),
            3 => push_char(&mut self.port, c),
            4 => push_char(&mut self.identity_file, c),
            5 => push_char(&mut self.note, c),
            _ => {},
        }
    }

    /// Deletes the last char of the active field (what backspace in the form
    /// does); nothing on the submit button or in an empty field.
    pub fn pop_from_active_field(&mut self)
        ensures
            final(self)@ == with_field(
                old(self)@,
                old(self).active_field as int,
                if active_text(old(self)@).len() > 0 {
                    active_text(old(self)@).drop_last()
                } else {
                    active_text(old(self)@)
                },
            ),
    {
        match self.active_field {
            0 => { pop_char(&mut self.name); },
            1 => { pop_char(&mut self.username); },
            2 => { pop_char(&mut self.hostname); },
            3 => { pop_char(&mut self.port); },
            4 => { pop_char(&mut self.identity_file); },
            5 => { pop_char(&mut self.note); },
            _ => {},
        }
    }

    /// Moves to the next field, from the submit button back to the first.
    pub fn next_field(&mut self)
        requires
            old(self).active_field <= FIELD_COUNT,
        ensures
            final(self)@ == (CreateConnectionView {
                active_field: ((old(self).active_field + 1) % 7) as usize,
                ..old(self)@
            }),
    {
        self.active_field = (self.active_field + 1) % 7;
    }

    /// Moves to the previous field, from the first back to the submit button.
    pub fn previous_field(&mut self)
        ensures
            final(self)@ == (CreateConnectionView {
                active_field: if old(self).active_field == 0 {
                    FIELD_COUNT
                } else {
                    (old(self).active_field - 1) as usize
                },
                ..old(self)@
            }),
    {
        if self.active_field == 0 {
            self.active_field = FIELD_COUNT;
        } else {
            self.active_field = self.active_field - 1;
        }
    }

    /// What submitting the form writes to the store.
    pub fn connection_draft(&self) -> (r: ConnectionDraft)
        ensures
            r@ == draft_of(self@),
    {
        let port = if is_blank(&self.port) {
            None
        } else {
            parse_i32(self.port.as_str())
        };
        ConnectionDraft {
            editing_connection_id: self.editing_connection_id,
            name: self.name.clone(),
            username: self.username.clone(),
            hostname: self.hostname.clone(),
            port,
            identity_file: option_of_text(&self.identity_file),
            note: option_of_text(&self.note),
        }
    }
}

} // verus!
