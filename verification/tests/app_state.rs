use fuzzy_matcher::skim::SkimMatcherV2;
use fuzzy_matcher::FuzzyMatcher;
use std::collections::HashSet;
use zorg::app::{App, AppFocus};
use zorg::connection::{Connection, History};
use zorg::fuzzy::match_connection;
use zorg::input::{handle_key_event, handle_mouse_event, Action, KeyCode, KeyEvent, MouseEvent};

fn conn(id: i32, name: &str, user: &str, host: &str) -> Connection {
    Connection {
        id: Some(id),
        name: name.to_string(),
        username: user.to_string(),
        hostname: host.to_string(),
        port: None,
        identity_file: None,
        note: None,
        is_favorite: false,
    }
}

fn hist(conn_id: i32, start: i32, code: &str) -> History {
    History { id: None, connection_id: conn_id, started_at: start, ended_at: start + 5, exit_code: code.to_string() }
}

fn key(code: KeyCode) -> KeyEvent {
    KeyEvent { code, control: false }
}

fn ctrl(c: char) -> KeyEvent {
    KeyEvent { code: KeyCode::Char(c), control: true }
}

fn sample_app() -> App {
    let mut app = App::new(vec![hist(1, 10, "0")], "alice".to_string());
    let conns = vec![conn(1, "web", "www", "web.example"), conn(2, "db", "root", "db.local"), conn(3, "jump", "ops", "bastion")];
    let hosts: HashSet<i32> = [3].into_iter().collect();
    let dests: HashSet<i32> = [1].into_iter().collect();
    app.refresh_connections(Some(conns), Some(hosts), Some(dests));
    app
}

fn order(app: &App) -> Vec<usize> {
    app.filtered_connections.iter().map(|m| m.conn_index).collect()
}

#[test]
fn empty_search_lists_all_by_tier() {
    let app = sample_app();
    // plain (db) first, then the one using a jump host (web), then the jump host
    assert_eq!(order(&app), vec![1, 0, 2]);
    assert!(app.filtered_connections.iter().all(|m| m.score == 0 && m.name_indices.is_empty()));
    assert_eq!(app.selected_connection_index, 0);
}

#[test]
fn match_connection_splits_positions() {
    let c = conn(1, "web", "www", "web.example");
    let m = match_connection(0, &c, "web").unwrap();
    assert_eq!(m.name_indices, vec![0, 1, 2]);
    assert!(m.score > 0);
    assert!(m.username_indices.is_empty());
    let h = match_connection(0, &c, "example").unwrap();
    assert!(h.name_indices.is_empty());
    assert_eq!(h.hostname_indices, vec![4, 5, 6, 7, 8, 9, 10]);
    assert!(match_connection(0, &c, "zzz").is_none());
    let e = match_connection(5, &c, "").unwrap();
    assert_eq!(e.conn_index, 5);
    assert_eq!(e.score, 0);
}

#[test]
fn typing_filters_the_list() {
    let mut app = sample_app();
    for ch in "db".chars() {
        let acts = handle_key_event(&mut app, key(KeyCode::Char(ch)));
        assert!(acts.is_empty());
    }
    assert_eq!(app.input, "db");
    assert_eq!(app.input_cursor, 2);
    assert_eq!(order(&app), vec![1]);
    handle_key_event(&mut app, key(KeyCode::Backspace));
    handle_key_event(&mut app, key(KeyCode::Backspace));
    assert_eq!(app.input, "");
    assert_eq!(order(&app), vec![1, 0, 2]);
}

#[test]
fn selection_clamps_when_list_shrinks() {
    let mut app = sample_app();
    app.selected_connection_index = 2;
    app.input = "zzzz".to_string();
    app.input_cursor = 4;
    app.update_search_filter();
    assert!(app.filtered_connections.is_empty());
    assert_eq!(app.selected_connection_index, 0);
    app.selected_connection_index = 5;
    app.input = String::new();
    app.input_cursor = 0;
    app.update_search_filter();
    assert_eq!(app.selected_connection_index, 2);
}

#[test]
fn tab_and_navigation_ask_for_history() {
    let mut app = sample_app();
    let acts = handle_key_event(&mut app, key(KeyCode::Tab));
    assert!(app.focus == AppFocus::List);
    assert!(matches!(acts.as_slice(), [Action::RefreshConnectionHistory]));
    let acts = handle_key_event(&mut app, key(KeyCode::Down));
    assert_eq!(app.selected_connection_index, 1);
    assert!(matches!(acts.as_slice(), [Action::RefreshConnectionHistory]));
    let acts = handle_key_event(&mut app, key(KeyCode::Down));
    assert_eq!(app.selected_connection_index, 2);
    assert_eq!(acts.len(), 1);
    let acts = handle_key_event(&mut app, key(KeyCode::Down));
    assert_eq!(app.selected_connection_index, 2);
    assert!(acts.is_empty());
    handle_key_event(&mut app, key(KeyCode::Up));
    assert_eq!(app.selected_connection_index, 1);
    let acts = handle_key_event(&mut app, key(KeyCode::Tab));
    assert!(app.focus == AppFocus::Search);
    assert!(acts.is_empty());
}

#[test]
fn enter_on_list_queues_ssh() {
    let mut app = sample_app();
    handle_key_event(&mut app, key(KeyCode::Enter));
    assert!(app.focus == AppFocus::List);
    handle_key_event(&mut app, key(KeyCode::Enter));
    assert_eq!(app.pending_ssh_connection.as_ref().map(|c| c.name.clone()), Some("db".to_string()));
}

#[test]
fn quit_keys() {
    let mut app = sample_app();
    assert!(matches!(handle_key_event(&mut app, ctrl('c')).as_slice(), [Action::Quit]));
    handle_key_event(&mut app, ctrl('h'));
    assert!(app.show_help_modal);
    assert!(handle_key_event(&mut app, key(KeyCode::Esc)).is_empty());
    assert!(!app.show_help_modal);
    assert!(matches!(handle_key_event(&mut app, key(KeyCode::Esc)).as_slice(), [Action::Quit]));
    app.create_connection_modal.is_open = true;
    assert!(matches!(handle_key_event(&mut app, ctrl('c')).as_slice(), [Action::Quit]));
}

#[test]
fn list_shortcuts() {
    let mut app = sample_app();
    handle_key_event(&mut app, key(KeyCode::Tab));
    let acts = handle_key_event(&mut app, key(KeyCode::Char('f')));
    assert!(matches!(acts.as_slice(), [Action::ToggleFavorite { conn_index: 1, id: 2 }]));
    let acts = handle_key_event(&mut app, ctrl('p'));
    assert!(matches!(acts.as_slice(), [Action::OpenProxyJumps { conn_index: 1 }]));
    handle_key_event(&mut app, ctrl('d'));
    assert!(app.delete_connection_modal.is_open);
    assert_eq!(app.delete_connection_modal.connection_name, "db");
    handle_key_event(&mut app, key(KeyCode::Left));
    assert!(app.delete_connection_modal.selected_yes);
    let acts = handle_key_event(&mut app, key(KeyCode::Enter));
    assert!(matches!(acts.as_slice(), [Action::DeleteConnection]));
    assert_eq!(app.delete_connection(), Some(2));
    app.record_deletion(Some(Ok(())));
    assert_eq!(app.messages.last().map(|s| s.as_str()), Some("Deleted connection: db"));
    assert!(!app.delete_connection_modal.is_open);
    let acts = handle_key_event(&mut app, key(KeyCode::Char('x')));
    assert!(acts.is_empty());
    assert!(app.focus == AppFocus::Search);
    assert_eq!(app.input, "x");
}

#[test]
fn favorite_toggle_applies_stored_connection() {
    let mut app = sample_app();
    let mut updated = conn(2, "db", "root", "db.local");
    updated.is_favorite = true;
    app.apply_favorite_toggle(1, Some(updated));
    assert!(app.connections[1].is_favorite);
    app.apply_favorite_toggle(1, None);
    assert!(app.connections[1].is_favorite);
}

#[test]
fn connection_form_flow() {
    let mut app = sample_app();
    handle_key_event(&mut app, ctrl('n'));
    assert!(app.create_connection_modal.is_open);
    for ch in "new".chars() {
        handle_key_event(&mut app, key(KeyCode::Char(ch)));
    }
    handle_key_event(&mut app, key(KeyCode::Tab));
    handle_key_event(&mut app, key(KeyCode::Tab));
    for ch in "host".chars() {
        handle_key_event(&mut app, key(KeyCode::Char(ch)));
    }
    handle_key_event(&mut app, key(KeyCode::Backspace));
    assert_eq!(app.create_connection_modal.hostname, "hos");
    assert!(handle_key_event(&mut app, key(KeyCode::Enter)).is_empty());
    handle_key_event(&mut app, key(KeyCode::BackTab));
    handle_key_event(&mut app, key(KeyCode::BackTab));
    handle_key_event(&mut app, key(KeyCode::BackTab));
    assert_eq!(app.create_connection_modal.active_field, 6);
    let acts = handle_key_event(&mut app, key(KeyCode::Enter));
    assert!(matches!(acts.as_slice(), [Action::SubmitConnection]));
    let draft = app.submit_connection();
    assert_eq!(draft.name, "new");
    assert_eq!(draft.username, "alice");
    assert_eq!(draft.hostname, "hos");
    app.record_submission(Ok("new".to_string()));
    assert_eq!(app.messages.last().map(|s| s.as_str()), Some("Created connection: new"));
    assert!(!app.create_connection_modal.is_open);
    assert_eq!(app.create_connection_modal.name, "");
    assert_eq!(app.create_connection_modal.username, "alice");
}

#[test]
fn edit_form_reports_update_errors() {
    let mut app = sample_app();
    handle_key_event(&mut app, key(KeyCode::Tab));
    handle_key_event(&mut app, ctrl('e'));
    assert!(app.create_connection_modal.is_open);
    assert_eq!(app.create_connection_modal.editing_connection_id, Some(2));
    let acts = handle_key_event(&mut app, key(KeyCode::Esc));
    assert!(acts.is_empty());
    assert!(!app.create_connection_modal.is_open);
    handle_key_event(&mut app, ctrl('e'));
    app.record_submission(Err("locked".to_string()));
    assert_eq!(app.messages.last().map(|s| s.as_str()), Some("Error updating connection: locked"));
}

#[test]
fn history_refresh_and_scroll() {
    let mut app = sample_app();
    app.refresh_history(Some(vec![hist(1, 1, "0"), hist(2, 2, "1"), hist(1, 3, "255")]));
    assert_eq!(app.recent_history.len(), 3);
    app.scroll_history_down(5);
    assert_eq!(app.history_scroll, 2);
    app.scroll_history_up(1);
    assert_eq!(app.history_scroll, 1);
    app.scroll_history_up(5);
    assert_eq!(app.history_scroll, 0);
    app.history_scroll = 2;
    app.refresh_history(Some(vec![hist(1, 1, "0")]));
    assert_eq!(app.history_scroll, 0);
    app.refresh_history(None);
    assert_eq!(app.recent_history.len(), 1);
    let acts = handle_key_event(&mut app, key(KeyCode::PageDown));
    assert!(acts.is_empty());
}

#[test]
fn connection_history_follows_selection() {
    let mut app = sample_app();
    assert_eq!(app.connection_history_source(), Some(2));
    app.connection_history_scroll = 4;
    app.refresh_connection_history(Some(vec![hist(2, 1, "0"), hist(2, 2, "0")]));
    assert_eq!(app.connection_history.len(), 2);
    assert_eq!(app.connection_history_scroll, 1);
    app.scroll_connection_history_down(5);
    assert_eq!(app.connection_history_scroll, 1);
    app.scroll_connection_history_up(3);
    assert_eq!(app.connection_history_scroll, 0);
    app.refresh_connection_history(None);
    assert_eq!(app.connection_history.len(), 2);
    app.selected_connection_index = 10;
    assert_eq!(app.connection_history_source(), None);
    app.refresh_connection_history(None);
    assert!(app.connection_history.is_empty());
}

#[test]
fn mouse_moves_focus() {
    let mut app = sample_app();
    assert!(!handle_mouse_event(&mut app, MouseEvent { left_down: true, row: 10 }));
    assert!(app.focus == AppFocus::List);
    handle_mouse_event(&mut app, MouseEvent { left_down: false, row: 0 });
    assert!(app.focus == AppFocus::List);
    handle_mouse_event(&mut app, MouseEvent { left_down: true, row: 2 });
    assert!(app.focus == AppFocus::Search);
}

#[test]
fn proxy_membership() {
    let app = sample_app();
    assert!(app.has_proxy(&app.connections[0]));
    assert!(!app.is_proxy(&app.connections[0]));
    assert!(app.is_proxy(&app.connections[2]));
    let mut none = conn(9, "x", "u", "h");
    none.id = None;
    assert!(!app.has_proxy(&none));
}

#[test]
fn refresh_connections_with_failed_reads() {
    let mut app = sample_app();
    app.refresh_connections(None, None, None);
    assert_eq!(app.connections.len(), 3);
    app.refresh_connections(Some(vec![conn(1, "web", "www", "web.example")]), None, None);
    assert_eq!(app.connections.len(), 1);
    assert!(app.proxy_hosts.is_empty());
    assert_eq!(order(&app), vec![0]);
}

#[test]
fn modal_keys_reach_key_dialog_then_form() {
    let mut app = sample_app();
    app.keys_modal.open(vec![], false);
    let acts = handle_key_event(&mut app, key(KeyCode::Char('a')));
    assert!(matches!(acts.as_slice(), [Action::StartAgent]));
    assert_eq!(app.create_connection_modal.name, "a");
}

#[test]
fn question_mark_toggles_help() {
    let mut app = sample_app();
    let acts = handle_key_event(&mut app, key(KeyCode::Char('?')));
    assert!(acts.is_empty());
    assert!(app.show_help_modal);
    assert_eq!(app.input, "");
    assert_eq!(app.input_cursor, 0);
    handle_key_event(&mut app, key(KeyCode::Tab));
    handle_key_event(&mut app, key(KeyCode::Char('?')));
    assert!(!app.show_help_modal);
    assert_eq!(app.input, "");
    assert!(app.focus == AppFocus::List);
}

#[test]
fn part_of_a_field_finds_the_connection() {
    let mut app = sample_app();
    for ch in "bstn".chars() {
        handle_key_event(&mut app, key(KeyCode::Char(ch)));
    }
    assert_eq!(order(&app), vec![2]);

    let mut one = App::new(Vec::new(), "alice".to_string());
    one.refresh_connections(Some(vec![conn(7, "Prod", "Admin", "x")]), None, None);
    for (query, found) in [("prod", true), ("adm", true), ("Prd", true), ("PROD", false), ("dorp", false)] {
        one.input = query.to_string();
        one.input_cursor = query.len();
        one.update_search_filter();
        assert_eq!(!one.filtered_connections.is_empty(), found, "query {}", query);
    }
}

#[test]
fn highlights_rejoin_to_matcher_positions() {
    let c = conn(1, "web", "www", "web.example");
    for query in ["wwx", "bwe", "web.ex", "ewa"] {
        let m = match_connection(0, &c, query).unwrap();
        let (_, idx) = SkimMatcherV2::default().fuzzy_indices("web www web.example", query).unwrap();
        let expected: Vec<usize> = idx.into_iter().filter(|&x| x != 3 && x != 7).collect();
        let mut joined = m.name_indices.clone();
        joined.extend(m.username_indices.iter().map(|x| x + 4));
        joined.extend(m.hostname_indices.iter().map(|x| x + 8));
        assert_eq!(joined, expected, "query {}", query);
        assert!(m.name_indices.iter().all(|&x| x < 3));
        assert!(m.username_indices.iter().all(|&x| x < 3));
        assert!(m.hostname_indices.iter().all(|&x| x < 11));
        assert!(joined.windows(2).all(|w| w[0] < w[1]));
    }
}
