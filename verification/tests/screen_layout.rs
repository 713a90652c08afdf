use zorg::connection::{Connection, History};
use zorg::history_view::{connection_item_gap, connection_name_for, exit_code_label, exit_column, exit_is_success, exit_text, global_item_layout, max_exit_width};
use zorg::layout::{center_rect_at_least, cursor_placement, marked_positions, port_label, proxy_indicator_padding, Rect};
use zorg::width::{display_width, truncate_to_cols};

fn hist(code: &str) -> History {
    History { id: Some(1), connection_id: 1, started_at: 0, ended_at: 1, exit_code: code.to_string() }
}

#[test]
fn exit_labels() {
    assert_eq!(exit_code_label("0"), "Success");
    assert_eq!(exit_code_label("1"), "General error");
    assert_eq!(exit_code_label("2"), "Invalid usage");
    assert_eq!(exit_code_label("126"), "Permission denied");
    assert_eq!(exit_code_label("127"), "Command not found");
    assert_eq!(exit_code_label("130"), "Interrupted");
    assert_eq!(exit_code_label("255"), "Connection failed");
    assert_eq!(exit_code_label("unknown"), "Signal killed");
    assert_eq!(exit_code_label("42"), "Unknown error");
    assert_eq!(exit_text("255"), "[255] Connection failed");
    assert!(exit_is_success("0"));
    assert!(!exit_is_success("00"));
}

#[test]
fn exit_width_and_column() {
    assert_eq!(max_exit_width(&vec![]), 0);
    let entries = vec![hist("0"), hist("127"), hist("1")];
    assert_eq!(max_exit_width(&entries), "[127] Command not found".len());
    assert_eq!(exit_column(40, &entries), 40 - 23);
    assert_eq!(exit_column(10, &entries), 0);
}

#[test]
fn display_widths() {
    assert_eq!(display_width("abc"), 3);
    assert_eq!(display_width("日本"), 4);
    assert_eq!(display_width(""), 0);
}

#[test]
fn truncation() {
    assert_eq!(truncate_to_cols("hello", 0), (String::new(), 0));
    assert_eq!(truncate_to_cols("hello", 3), ("he…".to_string(), 3));
    assert_eq!(truncate_to_cols("hello", 6), ("hello".to_string(), 5));
    assert_eq!(truncate_to_cols("hello", 5), ("hello".to_string(), 5));
    assert_eq!(truncate_to_cols("abc", 3), ("abc".to_string(), 3));
    assert_eq!(truncate_to_cols("abcd", 3), ("ab…".to_string(), 3));
    assert_eq!(truncate_to_cols("日本語", 4), ("日…".to_string(), 3));
    assert_eq!(truncate_to_cols("a\u{7}b", 10), ("a\u{7}b".to_string(), 3));
}

#[test]
fn global_row_layout() {
    let l = global_item_layout("production-database-1", "2024-01-01 10:00", 60, 45);
    // time column at 20, name cut to 19 columns
    assert_eq!(l.name, "production-databas…");
    assert_eq!(l.name_gap, 1);
    assert_eq!(l.time_gap, 45 - 20 - 16);
    let s = global_item_layout("web", "2024-01-01 10:00", 60, 30);
    assert_eq!(s.name, "web");
    assert_eq!(s.name_gap, 17);
    assert_eq!(s.time_gap, 1);
    assert_eq!(connection_item_gap("2024-01-01 10:00", 30), 14);
    assert_eq!(connection_item_gap("2024-01-01 10:00", 3), 1);
}

#[test]
fn session_names() {
    let c = Connection {
        id: Some(3),
        name: "db".to_string(),
        username: "u".to_string(),
        hostname: "h".to_string(),
        port: None,
        identity_file: None,
        note: None,
        is_favorite: false,
    };
    let conns = vec![c];
    assert_eq!(connection_name_for(&conns, 3), "db");
    assert_eq!(connection_name_for(&conns, 4), "Unknown");
}

#[test]
fn centered_rects() {
    let r = Rect { x: 0, y: 0, width: 100, height: 40 };
    let c = center_rect_at_least(64, 64, 56, 24, r);
    assert_eq!(c, Rect { x: 18, y: 7, width: 64, height: 25 });
    let small = Rect { x: 2, y: 1, width: 30, height: 10 };
    let d = center_rect_at_least(44, 50, 44, 12, small);
    assert_eq!(d, Rect { x: 2, y: 1, width: 30, height: 10 });
    assert_eq!(Rect::new(65530, 0, 10, 5), Rect { x: 65530, y: 0, width: 5, height: 5 });
}

#[test]
fn cursor_scrolls_field() {
    let p = cursor_placement("hello world", 11, 6);
    assert_eq!((p.scroll_x, p.offset), (6, 5));
    let q = cursor_placement("hello", 2, 20);
    assert_eq!((q.scroll_x, q.offset), (0, 2));
    let w = cursor_placement("日本", 9, 20);
    assert_eq!((w.scroll_x, w.offset), (0, 4));
}

#[test]
fn row_pieces() {
    assert_eq!(proxy_indicator_padding(10, 6, 30), Some(14));
    assert_eq!(proxy_indicator_padding(25, 6, 30), None);
    assert_eq!(marked_positions(4, &vec![0, 2, 9]), vec![true, false, true, false]);
    assert_eq!(port_label(Some(2222)), "2222");
    assert_eq!(port_label(None), "22 (default)");
}

#[test]
fn ascii_text_cut_by_char_count() {
    assert_eq!(truncate_to_cols("abc", 3), ("abc".to_string(), 3));
    assert_eq!(truncate_to_cols("abc", 2), ("a…".to_string(), 2));
    assert_eq!(truncate_to_cols("abc", 1), ("…".to_string(), 1));
    assert_eq!(truncate_to_cols("", 0), (String::new(), 0));
}
