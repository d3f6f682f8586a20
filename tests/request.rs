use todo_server::{classify, parse_add_request, parse_delete_request, Request, RequestError};

#[test]
fn add_text_after_first_equals() {
    let r = "POST /todos HTTP/1.1\r\nHost: x\r\n\r\ntodo=wash car";
    assert_eq!(parse_add_request(r), Some("wash car"));
}

#[test]
fn add_text_strips_line_ending_and_keeps_later_equals() {
    let r = "POST /todos HTTP/1.1\r\ntodo=a=b\r\nother";
    assert_eq!(parse_add_request(r), Some("a=b"));
}

#[test]
fn add_text_verbatim_without_decoding() {
    let r = "todo=  x%20y+z  \n";
    assert_eq!(parse_add_request(r), Some("  x%20y+z  "));
}

#[test]
fn add_skips_todo_line_without_equals() {
    let r = "POST /todos HTTP/1.1\r\ntodo\r\ntodo=later";
    assert_eq!(parse_add_request(r), Some("later"));
}

#[test]
fn add_needs_exact_todo_key() {
    assert_eq!(parse_add_request("POST /todos HTTP/1.1\r\n\r\ntodos=abc\r\n"), None);
    assert_eq!(parse_add_request("todo x=abc"), None);
    assert_eq!(parse_add_request("todos=abc\r\ntodo=def"), Some("def"));
}

#[test]
fn add_missing_text() {
    assert_eq!(parse_add_request("POST /todos HTTP/1.1\r\nHost: x\r\n"), None);
    assert_eq!(parse_add_request(""), None);
    assert_eq!(parse_add_request("xtodo=no"), None);
    assert!(matches!(
        classify("POST /todos HTTP/1.1\r\n\r\ntodos=abc\r\n"),
        Err(RequestError::MissingTodo)
    ));
}

#[test]
fn add_empty_text() {
    assert_eq!(parse_add_request("todo="), Some(""));
}

#[test]
fn add_last_line_keeps_lone_carriage_return() {
    assert_eq!(parse_add_request("todo=x\r"), Some("x\r"));
    assert_eq!(parse_add_request("todo=x\r\n"), Some("x"));
}

#[test]
fn delete_id_from_path() {
    assert_eq!(parse_delete_request("DELETE /todos/2 HTTP/1.1\r\nHost: x\r\n"), Some(2));
    assert_eq!(parse_delete_request("DELETE /todos/12345 HTTP/1.1"), Some(12345));
}

#[test]
fn delete_takes_first_numeric_segment() {
    assert_eq!(parse_delete_request("DELETE /todos/abc/7/8 HTTP/1.1"), Some(7));
    assert_eq!(parse_delete_request("DELETE /todos/+5 HTTP/1.1"), Some(5));
    assert_eq!(parse_delete_request("DELETE\t/todos/9"), Some(9));
}

#[test]
fn delete_without_id() {
    assert_eq!(parse_delete_request("DELETE /todos HTTP/1.1\r\n"), None);
    assert_eq!(parse_delete_request("DELETE /todos/x HTTP/1.1\r\n"), None);
    assert_eq!(parse_delete_request("DELETE /todos/-1 HTTP/1.1"), None);
    assert_eq!(parse_delete_request("DELETE /other/3 HTTP/1.1"), None);
    assert_eq!(parse_delete_request("GET /todos/3 HTTP/1.1"), None);
    assert_eq!(parse_delete_request(""), None);
}

#[test]
fn delete_id_bounds() {
    assert_eq!(
        parse_delete_request("DELETE /todos/18446744073709551615"),
        Some(u64::MAX)
    );
    assert_eq!(parse_delete_request("DELETE /todos/18446744073709551616"), None);
    assert_eq!(
        parse_delete_request("DELETE /todos/18446744073709551616/4"),
        Some(4)
    );
}

#[test]
fn delete_id_on_later_line() {
    assert_eq!(parse_delete_request("X\r\nDELETE /todos/3\r\n"), Some(3));
}

#[test]
fn classify_routes_by_prefix() {
    assert!(matches!(classify("GET / HTTP/1.1\r\n"), Ok(Request::Home)));
    assert!(matches!(classify("GET /todos HTTP/1.1\r\n"), Ok(Request::GetTodos)));
    assert!(matches!(
        classify("POST /todos HTTP/1.1\r\n\r\ntodo=wash car"),
        Ok(Request::AddTodo(ref t)) if t == "wash car"
    ));
    assert!(matches!(
        classify("DELETE /todos/2 HTTP/1.1\r\n"),
        Ok(Request::DeleteTodo(2))
    ));
    assert!(matches!(
        classify("PATCH / HTTP/1.1\r\n"),
        Ok(Request::Unrecognized(ref r)) if r == "PATCH / HTTP/1.1\r\n"
    ));
}

#[test]
fn classify_malformed() {
    assert!(matches!(
        classify("POST /todos HTTP/1.1\r\n\r\n"),
        Err(RequestError::MissingTodo)
    ));
    assert!(matches!(
        classify("DELETE /todos HTTP/1.1\r\n"),
        Err(RequestError::MissingId)
    ));
}

#[test]
fn classify_needs_full_prefix() {
    assert!(matches!(classify("GET / HTTP/1.1"), Ok(Request::Unrecognized(_))));
    assert!(matches!(classify("GET /index HTTP/1.1\r\n"), Ok(Request::Unrecognized(_))));
    assert!(matches!(classify(""), Ok(Request::Unrecognized(_))));
}

#[test]
fn delete_tokens_split_on_unicode_whitespace() {
    assert_eq!(parse_delete_request("DELETE\u{3000}/todos/4\u{a0}x"), Some(4));
    assert_eq!(parse_delete_request("DELETE /todos/4\u{85}5"), Some(4));
}
