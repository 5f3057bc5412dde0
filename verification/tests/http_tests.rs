use market_engine::http::headers::{header_value, insert_header};
use market_engine::http::http_server::{body_follows, collect_headers, content_length_of, join_lines, parse_request, parse_request_line, RequestError};
use market_engine::http::request::{HttpRequest, Method};
use market_engine::http::response::HttpResponse;

fn pair(k: &str, v: &str) -> (String, String) {
    (k.to_string(), v.to_string())
}

#[test]
fn request_line_gives_method_path_and_version() {
    let rl = parse_request_line(Some("GET /index.html HTTP/1.1")).unwrap();
    assert_eq!(rl.method, "GET");
    assert_eq!(rl.path, "/index.html");
    assert_eq!(rl.version, "HTTP/1.1");
    let spaced = parse_request_line(Some("  POST\t/api \u{3000} HTTP/1.0  extra")).unwrap();
    assert_eq!((spaced.method.as_str(), spaced.path.as_str(), spaced.version.as_str()), ("POST", "/api", "HTTP/1.0"));
}

#[test]
fn request_line_errors_name_the_missing_part() {
    assert_eq!(parse_request_line(None).err(), Some(RequestError::EmptyRequest));
    assert_eq!(parse_request_line(Some("   ")).err(), Some(RequestError::MissingMethod));
    assert_eq!(parse_request_line(Some("GET")).err(), Some(RequestError::MissingPath));
    assert_eq!(parse_request_line(Some("GET /")).err(), Some(RequestError::MissingVersion));
}

#[test]
fn header_lines_split_at_the_first_separator_and_later_ones_win() {
    let lines = vec![
        "Host: example.com".to_string(),
        "X-Time: 12:30: noon".to_string(),
        "no separator here".to_string(),
        "Host: other.org".to_string(),
        ": empty name".to_string(),
    ];
    let headers = collect_headers(&lines);
    assert_eq!(headers.len(), 3);
    assert_eq!(header_value(&headers, "Host").map(|s| s.as_str()), Some("other.org"));
    assert_eq!(header_value(&headers, "X-Time").map(|s| s.as_str()), Some("12:30: noon"));
    assert_eq!(header_value(&headers, "").map(|s| s.as_str()), Some("empty name"));
    assert_eq!(header_value(&headers, "host"), None);
}

#[test]
fn content_length_is_read_from_its_exact_header() {
    let mut headers = Vec::new();
    assert_eq!(content_length_of(&headers), Ok(None));
    insert_header(&mut headers, "content-length".to_string(), "5".to_string());
    assert_eq!(content_length_of(&headers), Ok(None));
    insert_header(&mut headers, "Content-Length".to_string(), "+42".to_string());
    assert_eq!(content_length_of(&headers), Ok(Some(42)));
    insert_header(&mut headers, "Content-Length".to_string(), "4x".to_string());
    assert_eq!(content_length_of(&headers), Err(RequestError::InvalidContentLength));
    insert_header(&mut headers, "Content-Length".to_string(), "99999999999999999999999".to_string());
    assert_eq!(content_length_of(&headers), Err(RequestError::InvalidContentLength));
    insert_header(&mut headers, "Content-Length".to_string(), "".to_string());
    assert_eq!(content_length_of(&headers), Err(RequestError::InvalidContentLength));
    assert_eq!(headers.len(), 2);
}

#[test]
fn body_lines_are_joined_with_line_feeds() {
    assert_eq!(join_lines(&vec![]), "");
    assert_eq!(join_lines(&vec!["one".to_string()]), "one");
    assert_eq!(join_lines(&vec!["a".to_string(), "".to_string(), "c".to_string()]), "a\n\nc");
}

#[test]
fn method_names_match_on_their_uppercase() {
    assert_eq!(Method::from_name("get"), Some(Method::Get));
    assert_eq!(Method::from_name("Delete"), Some(Method::Delete));
    assert_eq!(Method::from_name("PATCH"), Some(Method::Patch));
    assert_eq!(Method::from_name("po\u{17f}t"), Some(Method::Post));
    assert_eq!(Method::from_name("po\u{fb06}"), Some(Method::Post));
    assert_eq!(Method::from_name("opt\u{131}ons"), Some(Method::Options));
    assert_eq!(Method::from_name("FETCH"), None);
    assert_eq!(Method::from_name(""), None);
    assert_eq!(Method::from_name("g\u{e9}t"), None);
    for (name, m) in [("head", Method::Head), ("trace", Method::Trace), ("connect", Method::Connect), ("put", Method::Put)] {
        assert_eq!(Method::from_name(name), Some(m));
        assert_eq!(Method::from_name(&name.to_uppercase()), Some(m));
    }
}

#[test]
fn request_keeps_what_it_was_built_from() {
    let headers = vec![pair("Host", "x")];
    let req = HttpRequest::new("post".to_string(), "/p".to_string(), "HTTP/1.1".to_string(), headers, Some(3), Some("abc".to_string()));
    assert_eq!(req.method(), Method::Post);
    assert_eq!(req.path(), "/p");
    assert_eq!(req.version(), "HTTP/1.1");
    assert_eq!(req.headers().len(), 1);
    assert_eq!(req.content_length(), Some(3));
    assert_eq!(req.body(), Some("abc"));
}

#[test]
fn response_text_has_status_headers_length_and_body() {
    let response = HttpResponse::new(
        200,
        "OK".to_string(),
        vec![pair("Content-Type", "text/plain"), pair("CONTENT-length", "999"), pair("X-A", "1")],
        Some("héllo".to_string()),
    );
    let text = HttpResponse::format_response(response);
    assert_eq!(text, "HTTP/1.1 200 OK\r\nContent-Type: text/plain\r\nX-A: 1\r\nContent-Length: 6\r\n\r\nhéllo");
}

#[test]
fn response_without_body_has_zero_length() {
    let text = HttpResponse::format_response(HttpResponse::new(4, "Odd".to_string(), vec![], None));
    assert_eq!(text, "HTTP/1.1 4 Odd\r\nContent-Length: 0\r\n\r\n");
}

#[test]
fn whole_request_is_read_from_its_lines() {
    let headers = vec!["Host: a".to_string(), "Content-Length: 3".to_string(), "Host: b".to_string()];
    assert!(body_follows(&headers));
    let rest = vec!["x".to_string(), "yz".to_string()];
    let req = parse_request(Some("put /f HTTP/1.1"), &headers, &rest).unwrap();
    assert_eq!(req.method(), Method::Put);
    assert_eq!(req.path(), "/f");
    assert_eq!(req.content_length(), Some(3));
    assert_eq!(req.body(), Some("x\nyz"));
    assert_eq!(header_value(req.headers(), "Host").map(|s| s.as_str()), Some("b"));

    let plain = vec!["Accept: */*".to_string()];
    assert!(!body_follows(&plain));
    let req = parse_request(Some("GET / HTTP/1.1"), &plain, &vec![]).unwrap();
    assert_eq!(req.body(), None);
    assert_eq!(req.content_length(), None);
}

#[test]
fn whole_request_errors_come_in_order() {
    let bad_length = vec!["Content-Length: x".to_string()];
    assert!(!body_follows(&bad_length));
    assert_eq!(parse_request(None, &bad_length, &vec![]).err(), Some(RequestError::EmptyRequest));
    assert_eq!(parse_request(Some("FETCH /"), &bad_length, &vec![]).err(), Some(RequestError::MissingVersion));
    assert_eq!(parse_request(Some("FETCH / HTTP/1.1"), &bad_length, &vec![]).err(), Some(RequestError::InvalidContentLength));
    assert_eq!(
        parse_request(Some("FETCH / HTTP/1.1"), &vec![], &vec![]).err(),
        Some(RequestError::UnsupportedMethod("FETCH".to_string()))
    );
}
