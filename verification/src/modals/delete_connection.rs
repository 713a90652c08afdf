//! The dialog that confirms deleting a connection.
use vstd::prelude::*;

verus! {

/// The confirmation dialog: which connection would be deleted and whether
/// "Yes" is the chosen answer.
pub struct DeleteConnectionModal {
    pub is_open: bool,
    pub connection_id: Option<i32>,
    pub connection_name: String,
    pub selected_yes: bool,
}

/// The dialog as values.
pub struct DeleteConnectionView {
    pub is_open: bool,
    pub connection_id: Option<i32>,
    pub connection_name: Seq<char>,
    pub selected_yes: bool,
}

impl View for DeleteConnectionModal {
    type V = DeleteConnectionView;

    open spec fn view(&self) -> DeleteConnectionView {
        DeleteConnectionView {
            is_open: self.is_open,
            connection_id: self.connection_id,
            connection_name: self.connection_name@,
            selected_yes: self.selected_yes,
        }
    }
}

/// The closed dialog with nothing chosen.
pub open spec fn closed_dialog() -> DeleteConnectionView {
    DeleteConnectionView {
        is_open: false,
        connection_id: None,
        connection_name: Seq::empty(),
        selected_yes: false,
    }
}

/// The dialog open for a connection, with "No" chosen.
pub open spec fn opened_dialog(id: i32, name: Seq<char>) -> DeleteConnectionView {
    DeleteConnectionView {
        is_open: true,
        connection_id: Some(id),
        connection_name: name,
        selected_yes: false,
    }
}

impl DeleteConnectionModal {
    /// The closed dialog.
    pub fn new() -> (r: Self)
        ensures
            r@ == closed_dialog(),
    {
        DeleteConnectionModal {
            is_open: false,
            connection_id: None,
            connection_name: String::new(),
            selected_yes: false,
        }
    }

    /// Opens the dialog for the connection `id` named `name`, answering "No"
    /// by default.
    pub fn open(&mut self, id: i32, name: String)
        ensures
            final(self)@ == opened_dialog(id, name@),
    {
        self.is_open = true;
        self.connection_id = Some(id);
        self.connection_name = name;
        self.selected_yes = false;
    }

    /// Closes the dialog and forgets the connection.
    pub fn close(&mut self)
        ensures
            final(self)@ == closed_dialog(),
    {
        self.is_open = false;
        self.connection_id = None;
        self.connection_name = String::new();
        self.selected_yes = false;
    }

    /// Switches between "Yes" and "No".
    pub fn toggle_answer(&mut self)
        ensures
            final(self)@ == (DeleteConnectionView { selected_yes: !old(self).selected_yes, ..old(self)@ }),
    {
        self.selected_yes = !self.selected_yes;
    }
}

} // verus!
