use zorg::connection::Connection;
use zorg::modals::create_connection::CreateConnectionModal;
use zorg::modals::delete_connection::DeleteConnectionModal;
use zorg::modals::keys::{agent_status_text, key_row, KeyRowTone, KeysModal, SshKeyInfo};
use zorg::modals::proxy_jumps::ProxyJumpsModal;

fn conn(id: Option<i32>, name: &str, user: &str, host: &str, port: Option<i32>) -> Connection {
    Connection {
        id,
        name: name.to_string(),
        username: user.to_string(),
        hostname: host.to_string(),
        port,
        identity_file: None,
        note: None,
        is_favorite: false,
    }
}

fn key(name: &str, private: bool) -> SshKeyInfo {
    SshKeyInfo {
        path: format!("/home/u/.ssh/{}", name),
        file_name: name.to_string(),
        is_private: private,
        has_secure_permissions: true,
    }
}

#[test]
fn new_form_is_empty_with_default_user() {
    let m = CreateConnectionModal::new("alice".to_string());
    assert!(!m.is_open);
    assert_eq!(m.username, "alice");
    assert_eq!(m.name, "");
    assert_eq!(m.active_field, 0);
    assert!(!m.is_valid());
}

#[test]
fn load_connection_fills_form() {
    let mut m = CreateConnectionModal::new("alice".to_string());
    let mut c = conn(Some(4), "db", "root", "db.local", Some(2222));
    c.identity_file = Some("~/.ssh/id".to_string());
    m.load_connection(&c);
    assert!(m.is_open);
    assert_eq!(m.editing_connection_id, Some(4));
    assert_eq!(m.port, "2222");
    assert_eq!(m.identity_file, "~/.ssh/id");
    assert_eq!(m.note, "");
    assert_eq!(m.field_cursor, 2);
    assert!(m.is_valid());
    let d = m.connection_draft();
    assert_eq!(d.port, Some(2222));
    assert_eq!(d.identity_file.as_deref(), Some("~/.ssh/id"));
    assert_eq!(d.note, None);
    assert_eq!(d.editing_connection_id, Some(4));
}

#[test]
fn draft_drops_unparsable_port() {
    let mut m = CreateConnectionModal::new("u".to_string());
    m.port = "22x".to_string();
    assert_eq!(m.connection_draft().port, None);
    m.port = String::new();
    assert_eq!(m.connection_draft().port, None);
}

#[test]
fn cursor_editing_in_form() {
    let mut m = CreateConnectionModal::new("u".to_string());
    m.insert_char_at_cursor('a');
    m.insert_char_at_cursor('c');
    m.move_cursor_left();
    m.insert_char_at_cursor('b');
    assert_eq!(m.name, "abc");
    assert_eq!(m.field_cursor, 2);
    m.move_cursor_right();
    m.move_cursor_right();
    assert_eq!(m.field_cursor, 3);
    m.backspace_at_cursor();
    assert_eq!(m.name, "ab");
    m.move_cursor_left();
    m.move_cursor_left();
    m.move_cursor_left();
    assert_eq!(m.field_cursor, 0);
    m.backspace_at_cursor();
    assert_eq!(m.name, "ab");
    m.active_field = 1;
    m.cursor_to_end();
    assert_eq!(m.field_cursor, 1);
    assert_eq!(m.active_field_len(), 1);
    m.active_field = 6;
    m.insert_char_at_cursor('z');
    assert_eq!(m.field_cursor, 1);
    assert_eq!(m.active_field_len(), 0);
}

#[test]
fn type_then_erase_restores_field() {
    let mut m = CreateConnectionModal::new("u".to_string());
    m.hostname = "hst".to_string();
    m.active_field = 2;
    m.field_cursor = 1;
    m.insert_char_at_cursor('o');
    assert_eq!(m.hostname, "host");
    m.backspace_at_cursor();
    assert_eq!(m.hostname, "hst");
    assert_eq!(m.field_cursor, 1);
}

#[test]
fn field_navigation_wraps() {
    let mut m = CreateConnectionModal::new("u".to_string());
    m.previous_field();
    assert_eq!(m.active_field, 6);
    m.next_field();
    assert_eq!(m.active_field, 0);
    m.next_field();
    m.push_to_active_field('x');
    assert_eq!(m.username, "ux");
    m.pop_from_active_field();
    m.pop_from_active_field();
    m.pop_from_active_field();
    assert_eq!(m.username, "");
}

#[test]
fn reset_clears_form() {
    let mut m = CreateConnectionModal::new("u".to_string());
    m.load_connection(&conn(Some(1), "n", "x", "h", None));
    m.reset("bob".to_string());
    assert!(m.is_open);
    assert_eq!(m.username, "bob");
    assert_eq!(m.name, "");
    assert_eq!(m.editing_connection_id, None);
}

#[test]
fn delete_dialog_open_close() {
    let mut d = DeleteConnectionModal::new();
    d.open(7, "web".to_string());
    assert!(d.is_open);
    assert_eq!(d.connection_id, Some(7));
    assert!(!d.selected_yes);
    d.toggle_answer();
    assert!(d.selected_yes);
    d.close();
    assert!(!d.is_open);
    assert_eq!(d.connection_id, None);
    assert_eq!(d.connection_name, "");
    assert!(!d.selected_yes);
}

#[test]
fn keys_dialog_selection() {
    let mut k = KeysModal::new();
    k.open(vec![key("id_a", true), key("id_b.pub", false)], false);
    assert!(k.is_open);
    assert_eq!(k.selected, Some(0));
    k.previous();
    assert_eq!(k.selected, Some(1));
    k.next();
    assert_eq!(k.selected, Some(0));
    k.next();
    k.refresh(vec![key("id_a", true)], true);
    assert_eq!(k.selected, Some(0));
    k.refresh(vec![], true);
    assert_eq!(k.selected, None);
    k.close();
    assert!(!k.is_open);
}

#[test]
fn keys_dialog_add_messages() {
    let mut k = KeysModal::new();
    k.open(vec![key("id_a", true), key("id_b.pub", false)], false);
    assert_eq!(k.add_selected_to_agent(), None);
    assert_eq!(k.message.as_deref(), Some("SSH Agent is not running"));
    k.next();
    assert_eq!(k.add_selected_to_agent(), None);
    assert_eq!(k.message.as_deref(), Some("Only private keys can be added to the agent"));
    k.start_ssh_agent(Ok(true));
    assert!(k.agent_running);
    assert_eq!(k.message.as_deref(), Some("SSH Agent started successfully"));
    k.previous();
    assert_eq!(k.add_selected_to_agent().as_deref(), Some("/home/u/.ssh/id_a"));
    k.record_add_result("id_a", Ok(true));
    assert_eq!(k.message.as_deref(), Some("Successfully added id_a"));
    k.record_add_result("id_a", Ok(false));
    assert_eq!(k.message.as_deref(), Some("Failed to add key to agent"));
    k.record_add_result("id_a", Err("boom".to_string()));
    assert_eq!(k.message.as_deref(), Some("Error: boom"));
    k.start_ssh_agent(Err("nope".to_string()));
    assert_eq!(k.message.as_deref(), Some("Error starting agent: nope"));
    k.start_ssh_agent(Ok(false));
    assert_eq!(k.message.as_deref(), Some("Failed to start SSH Agent"));
}

#[test]
fn proxy_dialog_editing() {
    let mut p = ProxyJumpsModal::new();
    let src = conn(Some(1), "target", "u", "t", None);
    let all = vec![src.clone(), conn(Some(2), "bastion", "u", "b", None), conn(Some(3), "edge", "u", "e", Some(2200))];
    let hops = vec![conn(Some(3), "edge", "u", "e", None)];
    p.open(&src, Some(all), Some(hops));
    assert!(p.is_open);
    assert_eq!(p.available_connections.len(), 2);
    assert_eq!(p.available_connections[0].name, "bastion");
    assert_eq!(p.selected_jump_ids, vec![3]);
    assert_eq!(p.selected, Some(0));
    p.toggle_selected();
    assert_eq!(p.selected_jump_ids, vec![3, 2]);
    p.move_up();
    assert_eq!(p.selected_jump_ids, vec![2, 3]);
    p.move_up();
    assert_eq!(p.selected_jump_ids, vec![2, 3]);
    p.move_down();
    assert_eq!(p.selected_jump_ids, vec![3, 2]);
    p.toggle_selected();
    assert_eq!(p.selected_jump_ids, vec![3]);
    assert_eq!(p.save_request(), Some((1, vec![3])));
    p.save(true);
    assert_eq!(p.message.as_deref(), Some("Saved successfully!"));
    p.save(false);
    assert_eq!(p.message.as_deref(), Some("Failed to save."));
    p.next();
    assert_eq!(p.selected, Some(1));
    p.next();
    assert_eq!(p.selected, Some(0));
    p.close();
    assert!(!p.is_open);
    assert_eq!(p.source_connection_id, None);
    assert_eq!(p.save_request(), None);
}

#[test]
fn proxy_dialog_keeps_list_when_read_fails() {
    let mut p = ProxyJumpsModal::new();
    let src = conn(Some(1), "a", "u", "h", None);
    p.open(&src, Some(vec![conn(Some(5), "b", "u", "h", None)]), None);
    assert_eq!(p.available_connections.len(), 1);
    assert!(p.selected_jump_ids.is_empty());
    p.open(&src, None, None);
    assert_eq!(p.available_connections.len(), 1);
    let empty_src = conn(None, "new", "u", "h", None);
    let mut q = ProxyJumpsModal::new();
    q.open(&empty_src, Some(vec![]), Some(vec![conn(Some(9), "x", "u", "h", None)]));
    assert_eq!(q.selected, None);
    assert!(q.selected_jump_ids.is_empty());
}

#[test]
fn key_rows_and_agent_status() {
    let key = |name: &str, private: bool, secure: bool| SshKeyInfo {
        path: format!("/home/u/.ssh/{}", name),
        file_name: name.to_string(),
        is_private: private,
        has_secure_permissions: secure,
    };
    assert_eq!(key_row(&key("id_ed25519", true, true)), ("id_ed25519 (Private) ".to_string(), KeyRowTone::Plain));
    assert_eq!(key_row(&key("id_ed25519.pub", false, true)), ("id_ed25519.pub (Public) ".to_string(), KeyRowTone::Dimmed));
    assert_eq!(
        key_row(&key("id_rsa", true, false)),
        ("id_rsa (Private) [UNSECURE PERMS!]".to_string(), KeyRowTone::Warning)
    );
    assert_eq!(agent_status_text(true), "SSH Agent Running: Yes");
    assert_eq!(agent_status_text(false), "SSH Agent Running: No");
}
