use zorg::modals::create_connection::CreateConnectionModal;
use zorg::number::{format_i32, parse_i32};
use zorg::text::{char_byte_offset, ends_with, insert_at_char, is_blank, remove_char_before, str_eq};

#[test]
fn insert_at_char_places_char_by_char_index() {
    let mut s = String::from("héllo");
    insert_at_char(&mut s, 2, 'X');
    assert_eq!(s, "héXllo");
    insert_at_char(&mut s, 0, '>');
    assert_eq!(s, ">héXllo");
    insert_at_char(&mut s, 100, '!');
    assert_eq!(s, ">héXllo!");
}

#[test]
fn remove_char_before_deletes_left_of_cursor() {
    let mut s = String::from("añb");
    remove_char_before(&mut s, 2);
    assert_eq!(s, "ab");
    remove_char_before(&mut s, 0);
    assert_eq!(s, "ab");
    remove_char_before(&mut s, 5);
    assert_eq!(s, "ab");
    remove_char_before(&mut s, 2);
    assert_eq!(s, "a");
}

#[test]
fn char_byte_offset_counts_utf8_bytes() {
    assert_eq!(char_byte_offset("héllo", 0), 0);
    assert_eq!(char_byte_offset("héllo", 2), 3);
    assert_eq!(char_byte_offset("héllo", 9), 6);
    assert_eq!(char_byte_offset("", 3), 0);
}

#[test]
fn push_and_pop_chars() {
    let mut m = CreateConnectionModal::new("ab".to_string());
    m.next_field();
    m.push_to_active_field('ç');
    assert_eq!(m.username, "abç");
    m.pop_from_active_field();
    assert_eq!(m.username, "ab");
    m.pop_from_active_field();
    m.pop_from_active_field();
    m.pop_from_active_field();
    assert_eq!(m.username, "");
    assert!(is_blank(&m.username));
    assert!(is_blank(&m.name));
}

#[test]
fn string_comparisons() {
    assert!(str_eq("abc", "abc"));
    assert!(!str_eq("abc", "abd"));
    assert!(!str_eq("ab", "abc"));
    assert!(ends_with("id_rsa.pub", ".pub"));
    assert!(!ends_with("id_rsa", ".pub"));
    assert!(ends_with("x", ""));
    assert!(!ends_with("ub", ".pub"));
}

#[test]
fn format_i32_writes_decimal() {
    assert_eq!(format_i32(0), "0");
    assert_eq!(format_i32(22), "22");
    assert_eq!(format_i32(-7), "-7");
    assert_eq!(format_i32(i32::MAX), "2147483647");
    assert_eq!(format_i32(i32::MIN), "-2147483648");
}

#[test]
fn parse_i32_follows_std() {
    let cases = [
        "22", "+5", "-0", "", "-", "+", "12a", " 1", "2147483647", "2147483648", "-2147483648",
        "-2147483649", "007", "99999999999999999999", "٣",
    ];
    for c in cases {
        assert_eq!(parse_i32(c), c.parse::<i32>().ok(), "case {:?}", c);
    }
    assert_eq!(parse_i32("2222"), Some(2222));
}

#[test]
fn parse_reads_back_formatted_numbers() {
    for n in [0, 1, -1, 22, 65535, i32::MAX, i32::MIN, -123456] {
        assert_eq!(parse_i32(&format_i32(n)), Some(n));
    }
}
