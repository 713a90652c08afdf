//! The dialog that lists SSH keys and adds them to the SSH agent.
use vstd::prelude::*;
use super::{selection_in_bounds, next_selection, previous_selection, step_down, step_up};

verus! {

/// A key file found in the user's SSH directory.
pub struct SshKeyInfo {
    pub path: String,
    pub file_name: String,
    pub is_private: bool,
    pub has_secure_permissions: bool,
}

/// A key file as values.
pub struct SshKeyView {
    pub path: Seq<char>,
    pub file_name: Seq<char>,
    pub is_private: bool,
    pub has_secure_permissions: bool,
}

impl View for SshKeyInfo {
    type V = SshKeyView;

    open spec fn view(&self) -> SshKeyView {
        SshKeyView {
            path: self.path@,
            file_name: self.file_name@,
            is_private: self.is_private,
            has_secure_permissions: self.has_secure_permissions,
        }
    }
}

/// The key dialog: the keys found, the list cursor, whether an agent runs, and
/// the last message shown.
pub struct KeysModal {
    pub is_open: bool,
    pub keys: Vec<SshKeyInfo>,
    pub selected: Option<usize>,
    pub agent_running: bool,
    pub message: Option<String>,
}

/// The key dialog as values.
pub struct KeysView {
    pub is_open: bool,
    pub keys: Seq<SshKeyView>,
    pub selected: Option<usize>,
    pub agent_running: bool,
    pub message: Option<Seq<char>>,
}

impl View for KeysModal {
    type V = KeysView;

    open spec fn view(&self) -> KeysView {
        KeysView {
            is_open: self.is_open,
            keys: self.keys@.map_values(|k: SshKeyInfo| k@),
            selected: self.selected,
            agent_running: self.agent_running,
            message: crate::connection::opt_text(self.message),
        }
    }
}

/// The cursor kept after the key list was read again: none on an empty list,
/// the first key when there was none, else the old one pulled back onto the
/// list.
pub open spec fn refreshed_selection(sel: Option<usize>, len: int) -> Option<usize> {
    if len == 0 {
        None
    } else {
        match sel {
            None => Some(0),
            Some(i) => if i > len - 1 { Some((len - 1) as usize) } else { Some(i) },
        }
    }
}

/// The message a key dialog shows after an attempt to add the key stored as
/// `file_name` to the agent: `Ok(true)` when ssh-add succeeded, `Ok(false)`
/// when it failed, `Err(e)` when it could not be run.
pub open spec fn add_result_message(file_name: Seq<char>, outcome: Result<bool, Seq<char>>) -> Seq<char> {
    match outcome {
        Ok(true) => "Successfully added "@ + file_name,
        Ok(false) => "Failed to add key to agent"@,
        Err(e) => "Error: "@ + e,
    }
}

/// What the dialog does when the user asks to add the chosen key: nothing
/// without a chosen key; a refusal for a public key or when no agent runs;
/// else the key's path is handed to ssh-add.
pub open spec fn add_key_request(m: KeysView) -> (Option<Seq<char>>, KeysView) {
    match m.selected {
        None => (None, m),
        Some(i) => {
            let key = m.keys[i as int];
            if !key.is_private {
                (None, KeysView { message: Some("Only private keys can be added to the agent"@), ..m })
            } else if !m.agent_running {
                (None, KeysView { message: Some("SSH Agent is not running"@), ..m })
            } else {
                (Some(key.path), m)
            }
        },
    }
}

/// The dialog after an attempt to start an agent: `Ok(true)` when ssh-agent
/// started, `Ok(false)` when it failed, `Err(e)` when it could not be run.
pub open spec fn agent_started(m: KeysView, outcome: Result<bool, Seq<char>>) -> KeysView {
    match outcome {
        Ok(true) => KeysView { message: Some("SSH Agent started successfully"@), agent_running: true, ..m },
        Ok(false) => KeysView { message: Some("Failed to start SSH Agent"@), ..m },
        Err(e) => KeysView { message: Some("Error starting agent: "@ + e), ..m },
    }
}

/// The characters of an outcome's error text.
pub open spec fn outcome_text(o: Result<bool, String>) -> Result<bool, Seq<char>> {
    match o {
        Ok(b) => Ok(b),
        Err(e) => Err(e@),
    }
}

/// `prefix` followed by `rest`.
pub fn join_text(prefix: &str, rest: &str) -> (r: String)
    ensures
        r@ == prefix@ + rest@,
{
    let mut out = String::from_str(prefix);
    out.append(rest);
    out
}

/// How a key's row is drawn: plainly, greyed out, or as a warning.
#[derive(PartialEq, Eq, Structural, Clone, Copy, Debug)]
pub enum KeyRowTone {
    Plain,
    Dimmed,
    Warning,
}

/// A private key whose file others can read.
pub open spec fn unsafe_private_key(k: SshKeyView) -> bool {
    k.is_private && !k.has_secure_permissions
}

/// The text of a key's row: its file name, whether it is private or public,
/// and a warning for a private key whose file others can read.
pub open spec fn key_row_text(k: SshKeyView) -> Seq<char> {
    k.file_name + " "@ + (if k.is_private { "(Private) "@ } else { "(Public) "@ }) + (if unsafe_private_key(k) {
        "[UNSECURE PERMS!]"@
    } else {
        Seq::empty()
    })
}

/// The tone of a key's row: a warning for an unsafe private key, greyed out
/// for a public key, else plain.
pub open spec fn key_row_tone(k: SshKeyView) -> KeyRowTone {
    if unsafe_private_key(k) {
        KeyRowTone::Warning
    } else if !k.is_private {
        KeyRowTone::Dimmed
    } else {
        KeyRowTone::Plain
    }
}

/// The row that shows a key in the dialog's list, with its tone.
pub fn key_row(k: &SshKeyInfo) -> (r: (String, KeyRowTone))
    ensures
        r.0@ == key_row_text(k@),
        r.1 == key_row_tone(k@),
{
    let mut text = join_text(k.file_name.as_str(), " ");
    let mut tone = KeyRowTone::Plain;
    if k.is_private {
        text.append("(Private) ");
    } else {
        text.append("(Public) ");
        tone = KeyRowTone::Dimmed;
    }
    if k.is_private && !k.has_secure_permissions {
        text.append("[UNSECURE PERMS!]");
        tone = KeyRowTone::Warning;
    } else {
        assert(text@ + Seq::<char>::empty() =~= text@);
    }
    (text, tone)
}

/// The status line of the dialog: whether an SSH agent runs.
pub fn agent_status_text(agent_running: bool) -> (r: String)
    ensures
        r@ == "SSH Agent Running: "@ + if agent_running { "Yes"@ } else { "No"@ },
{
    if agent_running {
        join_text("SSH Agent Running: ", "Yes")
    } else {
        join_text("SSH Agent Running: ", "No")
    }
}

impl KeysModal {
    /// The closed dialog with no keys.
    pub fn new() -> (r: Self)
        ensures
            r@ == (KeysView { is_open: false, keys: Seq::empty(), selected: None, agent_running: false, message: None }),
    {
        let r = KeysModal { is_open: false, keys: Vec::new(), selected: None, agent_running: false, message: None };
        assert(r@.keys =~= Seq::<SshKeyView>::empty());
        r
    }

    /// Takes the key files just found and whether an agent runs, and keeps the
    /// cursor on the list.
    pub fn refresh(&mut self, keys: Vec<SshKeyInfo>, agent_running: bool)
        ensures
            final(self)@ == (KeysView {
                keys: keys@.map_values(|k: SshKeyInfo| k@),
                agent_running: agent_running,
                selected: refreshed_selection(old(self).selected, keys@.len() as int),
                ..old(self)@
            }),
    {
        let len = keys.len();
        self.keys = keys;
        self.agent_running = agent_running;
        if len == 0 {
            self.selected = None;
        } else {
            match self.selected {
                None => { self.selected = Some(0); },
                Some(i) => {
                    if i > len - 1 {
                        self.selected = Some(len - 1);
                    }
                },
            }
        }
    }

    /// Opens the dialog on the key files just found, clearing the message.
    pub fn open(&mut self, keys: Vec<SshKeyInfo>, agent_running: bool)
        ensures
            final(self)@ == (KeysView {
                is_open: true,
                message: None,
                keys: keys@.map_values(|k: SshKeyInfo| k@),
                agent_running: agent_running,
                selected: refreshed_selection(old(self).selected, keys@.len() as int),
                ..old(self)@
            }),
    {
        self.is_open = true;
        self.message = None;
        self.refresh(keys, agent_running);
    }

    /// Closes the dialog, clearing the message.
    pub fn close(&mut self)
        ensures
            final(self)@ == (KeysView { is_open: false, message: None, ..old(self)@ }),
    {
        self.is_open = false;
        self.message = None;
    }

    /// Decides what adding the chosen key to the agent takes: the path to hand
    /// to ssh-add, or nothing (with the reason in the message).
    pub fn add_selected_to_agent(&mut self) -> (r: Option<String>)
        requires
            selection_in_bounds(old(self).selected, old(self).keys@.len() as int),
        ensures
            opt_text_of(r) == add_key_request(old(self)@).0,
            final(self)@ == add_key_request(old(self)@).1,
    {
        match self.selected {
            None => None,
            Some(i) => {
                let key = &self.keys[i];
                if !key.is_private {
                    self.message = Some(String::from_str("Only private keys can be added to the agent"));
                    None
                } else if !self.agent_running {
                    self.message = Some(String::from_str("SSH Agent is not running"));
                    None
                } else {
                    Some(key.path.clone())
                }
            },
        }
    }

    /// Shows the result of running ssh-add on the key stored as `file_name`.
    pub fn record_add_result(&mut self, file_name: &str, outcome: Result<bool, String>)
        ensures
            final(self)@ == (KeysView {
                message: Some(add_result_message(file_name@, outcome_text(outcome))),
                ..old(self)@
            }),
    {
        let msg = match outcome {
            Ok(true) => join_text("Successfully added ", file_name),
            Ok(false) => String::from_str("Failed to add key to agent"),
            Err(e) => join_text("Error: ", e.as_str()),
        };
        self.message = Some(msg);
    }

    /// Shows the result of starting an agent.
    pub fn start_ssh_agent(&mut self, outcome: Result<bool, String>)
        ensures
            final(self)@ == agent_started(old(self)@, outcome_text(outcome)),
    {
        match outcome {
            Ok(true) => {
                self.message = Some(String::from_str("SSH Agent started successfully"));
                self.agent_running = true;
            },
            Ok(false) => {
                self.message = Some(String::from_str("Failed to start SSH Agent"));
            },
            Err(e) => {
                self.message = Some(join_text("Error starting agent: ", e.as_str()));
            },
        }
    }

    /// Moves the cursor down the key list, wrapping around.
    pub fn next(&mut self)
        ensures
            final(self)@ == (KeysView { selected: next_selection(old(self).selected, old(self).keys@.len() as int), ..old(self)@ }),
    {
        self.selected = step_down(self.selected, self.keys.len());
    }

    /// Moves the cursor up the key list, wrapping around.
    pub fn previous(&mut self)
        ensures
            final(self)@ == (KeysView { selected: previous_selection(old(self).selected, old(self).keys@.len() as int), ..old(self)@ }),
    {
        self.selected = step_up(self.selected, self.keys.len());
    }
}

/// The characters of an optional string.
pub open spec fn opt_text_of(s: Option<String>) -> Option<Seq<char>> {
    crate::connection::opt_text(s)
}

} // verus!
