//! Zorg: the state, rules and text handling of a terminal SSH connection
//! manager: fuzzy search and ranking of stored connections, the key bindings
//! of the main screen and its dialogs, jump host lists, session history
//! labels, terminal layout and the arguments handed to ssh.

pub mod text;
pub mod number;
pub mod connection;
pub mod fuzzy;
pub mod modals;
pub mod app;
pub mod input;
pub mod width;
pub mod history_view;
pub mod layout;
pub mod ssh;
