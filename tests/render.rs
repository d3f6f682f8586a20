use std::collections::HashMap;
use todo_server::{format_response, render_entries, status_line, todo_hashmap_to_string, Action};
use todo_server::{NOT_FOUND_STATUS, OK_STATUS};

fn item(id: u64, text: &str) -> String {
    format!(
        "<li>{} <button hx-delete=\"/todos/{}\" hx-swap=\"innerHTML\" hx-target=\"#todos\">delete</button></li>\n\n",
        text, id
    )
}

#[test]
fn render_exact_markup() {
    let entries = vec![(7u64, "buy milk".to_string()), (10, "x".to_string())];
    assert_eq!(render_entries(&entries), format!("{}{}", item(7, "buy milk"), item(10, "x")));
    assert_eq!(render_entries(&Vec::new()), "");
}

#[test]
fn render_id_zero_and_max() {
    let entries = vec![(0u64, "a".to_string()), (u64::MAX, "b".to_string())];
    let out = render_entries(&entries);
    assert!(out.contains("hx-delete=\"/todos/0\""));
    assert!(out.contains("hx-delete=\"/todos/18446744073709551615\""));
}

#[test]
fn hashmap_fragment_has_one_control_per_entry() {
    let mut todos: HashMap<u64, String> = HashMap::new();
    todos.insert(1, "one".to_string());
    todos.insert(2, "two".to_string());
    todos.insert(3, "three".to_string());
    let out = todo_hashmap_to_string(&mut todos);
    assert_eq!(out.matches("hx-delete=").count(), 3);
    for (id, text) in [(1, "one"), (2, "two"), (3, "three")] {
        assert_eq!(out.matches(&item(id, text)).count(), 1);
    }
    assert_eq!(out.len(), item(1, "one").len() + item(2, "two").len() + item(3, "three").len());
    assert_eq!(todos.len(), 3);
}

#[test]
fn response_declares_body_length() {
    let r = format_response(OK_STATUS, "hello");
    assert_eq!(r, "HTTP/1.1 200 OK\r\nContent-Length: 5\r\n\r\nhello");
    let r = format_response(NOT_FOUND_STATUS, "");
    assert_eq!(r, "HTTP/1.1 404 NOT FOUND\r\nContent-Length: 0\r\n\r\n");
}

#[test]
fn response_length_counts_bytes() {
    let body = "é✓";
    let r = format_response(OK_STATUS, body);
    assert_eq!(r, format!("HTTP/1.1 200 OK\r\nContent-Length: {}\r\n\r\n{}", body.len(), body));
    assert!(r.contains("Content-Length: 5\r\n"));
}

#[test]
fn status_lines() {
    assert_eq!(status_line(&Action::ServeHome), Some("HTTP/1.1 200 OK"));
    assert_eq!(status_line(&Action::Send(String::new())), Some("HTTP/1.1 200 OK"));
    assert_eq!(status_line(&Action::ServeNotFound), Some("HTTP/1.1 404 NOT FOUND"));
    assert_eq!(status_line(&Action::Drop), None);
}
