use jals::http::{build_response, route, route_request, Route};
use jals::words::split_words;

#[test]
fn root_path_serves_index() {
    assert_eq!(route("/"), Route::Index);
}

#[test]
fn status_path_serves_index() {
    assert_eq!(route("/status"), Route::Index);
}

#[test]
fn nine_char_path_serves_index() {
    assert_eq!(route("/abcd1234"), Route::Index);
    assert_eq!(route("/é2345678"), Route::Index);
}

#[test]
fn other_paths_are_not_found() {
    assert_eq!(route("/abc"), Route::NotFound);
    assert_eq!(route("/this/is/long"), Route::NotFound);
    assert_eq!(route("/abcd12345"), Route::NotFound);
    assert_eq!(route("abcd12345"), Route::NotFound);
    assert_eq!(route("/statu"), Route::NotFound);
    assert_eq!(route(""), Route::NotFound);
}

#[test]
fn request_line_routes_by_second_word() {
    assert_eq!(route_request("GET / HTTP/1.1"), Some(Route::Index));
    assert_eq!(route_request("GET /status HTTP/1.1"), Some(Route::Index));
    assert_eq!(route_request("GET /abcd1234 HTTP/1.1"), Some(Route::Index));
    assert_eq!(route_request("GET /abc HTTP/1.1"), Some(Route::NotFound));
    assert_eq!(route_request("  GET \t  /status"), Some(Route::Index));
    assert_eq!(route_request("GET\u{3000}/"), Some(Route::Index));
}

#[test]
fn request_line_without_path_has_no_route() {
    assert_eq!(route_request(""), None);
    assert_eq!(route_request("GET"), None);
    assert_eq!(route_request("   GET   "), None);
}

#[test]
fn split_words_drops_runs_of_whitespace() {
    let w = split_words("  a\tbc  d\r\n");
    let s: Vec<String> = w.iter().map(|x| x.iter().collect()).collect();
    assert_eq!(s, vec!["a".to_string(), "bc".to_string(), "d".to_string()]);
    assert!(split_words(" \t ").is_empty());
}

#[test]
fn status_lines_and_documents() {
    assert_eq!(Route::Index.status_line(), "HTTP/1.1 200 OK");
    assert_eq!(Route::NotFound.status_line(), "HTTP/1.1 404 NOT FOUND");
    assert_eq!(Route::Index.document(), "src/index.html");
    assert_eq!(Route::NotFound.document(), "src/404.html");
}

#[test]
fn response_frames_body_with_length() {
    let r = build_response(Route::Index, b"hello");
    assert_eq!(r, b"HTTP/1.1 200 OK\r\nContent-Length: 5\r\n\r\nhello".to_vec());
}

#[test]
fn not_found_response_with_empty_body() {
    let r = build_response(Route::NotFound, b"");
    assert_eq!(r, b"HTTP/1.1 404 NOT FOUND\r\nContent-Length: 0\r\n\r\n".to_vec());
}

#[test]
fn content_length_counts_bytes() {
    let body = vec![b'x'; 1234];
    let r = build_response(Route::Index, &body);
    let head = b"HTTP/1.1 200 OK\r\nContent-Length: 1234\r\n\r\n";
    assert_eq!(&r[..head.len()], &head[..]);
    assert_eq!(&r[head.len()..], &body[..]);
    let utf8 = "é€".as_bytes();
    let r2 = build_response(Route::Index, utf8);
    assert!(r2.starts_with(b"HTTP/1.1 200 OK\r\nContent-Length: 5\r\n\r\n"));
}
