//! The records the manager stores: saved connections and the history of
//! sessions run against them.
use vstd::prelude::*;

verus! {

/// A saved SSH connection.
pub struct Connection {
    pub id: Option<i32>,
    pub name: String,
    pub username: String,
    pub hostname: String,
    pub port: Option<i32>,
    pub identity_file: Option<String>,
    pub note: Option<String>,
    pub is_favorite: bool,
}

/// A connection as values.
pub struct ConnectionView {
    pub id: Option<i32>,
    pub name: Seq<char>,
    pub username: Seq<char>,
    pub hostname: Seq<char>,
    pub port: Option<i32>,
    pub identity_file: Option<Seq<char>>,
    pub note: Option<Seq<char>>,
    pub is_favorite: bool,
}

/// The characters of an optional string.
pub open spec fn opt_text(s: Option<String>) -> Option<Seq<char>> {
    match s {
        Some(t) => Some(t@),
        None => None,
    }
}

impl View for Connection {
    type V = ConnectionView;

    open spec fn view(&self) -> ConnectionView {
        ConnectionView {
            id: self.id,
            name: self.name@,
            username: self.username@,
            hostname: self.hostname@,
            port: self.port,
            identity_file: opt_text(self.identity_file),
            note: opt_text(self.note),
            is_favorite: self.is_favorite,
        }
    }
}

/// Copies an optional string.
pub fn clone_opt_string(s: &Option<String>) -> (r: Option<String>)
    ensures
        r == *s,
{
    match s {
        Some(t) => Some(t.clone()),
        None => None,
    }
}

impl Clone for Connection {
    fn clone(&self) -> (r: Self)
        ensures
            r == *self,
    {
        Connection {
            id: self.id,
            name: self.name.clone(),
            username: self.username.clone(),
            hostname: self.hostname.clone(),
            port: self.port,
            identity_file: clone_opt_string(&self.identity_file),
            note: clone_opt_string(&self.note),
            is_favorite: self.is_favorite,
        }
    }
}

/// One recorded SSH session: which connection, when it started and ended
/// (seconds since the epoch), and how it exited.
pub struct History {
    pub id: Option<i32>,
    pub connection_id: i32,
    pub started_at: i32,
    pub ended_at: i32,
    pub exit_code: String,
}

/// A history entry as values.
pub struct HistoryView {
    pub id: Option<i32>,
    pub connection_id: i32,
    pub started_at: i32,
    pub ended_at: i32,
    pub exit_code: Seq<char>,
}

impl View for History {
    type V = HistoryView;

    open spec fn view(&self) -> HistoryView {
        HistoryView {
            id: self.id,
            connection_id: self.connection_id,
            started_at: self.started_at,
            ended_at: self.ended_at,
            exit_code: self.exit_code@,
        }
    }
}

impl Clone for History {
    fn clone(&self) -> (r: Self)
        ensures
            r == *self,
    {
        History {
            id: self.id,
            connection_id: self.connection_id,
            started_at: self.started_at,
            ended_at: self.ended_at,
            exit_code: self.exit_code.clone(),
        }
    }
}

} // verus!
