use chat_server::http_helper::{
    body_of_request, get_content_type, get_query_params, http_response, invalid_response,
    not_found_response, ok_response, parse_cookies, response_header, unauthenticated_response,
};
use chat_server::strmap::StringMap;
use chat_server::text::{split_str, str_eq, to_decimal, trim_str};
use chat_server::utils::{
    clear_cookies_response, extract_path_from_request, parse_request_line,
    redirect_login_response,
};

#[test]
fn cookies_are_parsed_from_the_first_cookie_header() {
    let raw = "POST / HTTP/1.1\r\nHost: x\r\nCookie: id=acc-1; token=t0k3n; name=alice\r\n\r\n";
    let cookies = parse_cookies(raw);
    assert_eq!(cookies.get("id"), Some(&"acc-1".to_string()));
    assert_eq!(cookies.get("token"), Some(&"t0k3n".to_string()));
    assert_eq!(cookies.get("name"), Some(&"alice".to_string()));
    assert_eq!(cookies.get("missing"), None);
}

#[test]
fn cookie_values_are_trimmed_and_pairs_without_equals_skipped() {
    let raw = "GET / HTTP/1.1\r\nCookie: a = 1 ; lonely; b=2\r\n\r\n";
    let cookies = parse_cookies(raw);
    assert_eq!(cookies.get("a"), Some(&"1".to_string()));
    assert_eq!(cookies.get("b"), Some(&"2".to_string()));
    assert_eq!(cookies.get("lonely"), None);
}

#[test]
fn no_cookie_header_means_no_cookies() {
    let cookies = parse_cookies("GET / HTTP/1.1\r\nHost: x\r\n\r\n");
    assert_eq!(cookies.get("id"), None);
}

#[test]
fn query_params_split_on_ampersand_and_equals() {
    let params = get_query_params("id=42&mode=fast&flag");
    assert_eq!(params.get("id"), Some(&"42".to_string()));
    assert_eq!(params.get("mode"), Some(&"fast".to_string()));
    assert_eq!(params.get("flag"), None);
}

#[test]
fn later_query_bindings_win() {
    let params = get_query_params("id=1&id=2");
    assert_eq!(params.get("id"), Some(&"2".to_string()));
}

#[test]
fn body_is_framed_after_the_blank_line() {
    let raw = "POST / HTTP/1.1\r\nContent-Type: application/json\r\n\r\n{\"name\":\"x\"}\0\0\0";
    assert_eq!(body_of_request(raw), Some("{\"name\":\"x\"}".to_string()));
    assert_eq!(body_of_request("POST / HTTP/1.1\nno separator"), None);
    assert_eq!(body_of_request("POST / HTTP/1.1\r\n\r\n  hi \r\n\0\0"), Some("hi".to_string()));
}

#[test]
fn request_line_parsing() {
    let raw = "GET /room?id=1 HTTP/1.1\r\nHost: x\r\n\r\n";
    assert_eq!(extract_path_from_request(raw), Some("/room?id=1".to_string()));
    let data = parse_request_line(raw).unwrap();
    assert_eq!(data.method, "GET");
    assert_eq!(data.path, "/room?id=1");
    assert_eq!(extract_path_from_request("garbage\r\n\r\n"), None);
    assert!(parse_request_line("\r\n\r\n").is_none());
}

#[test]
fn content_types_by_suffix() {
    assert_eq!(get_content_type("/static/app.css"), "text/css");
    assert_eq!(get_content_type("/static/app.js"), "application/javascript");
    assert_eq!(get_content_type("/static/page.html"), "text/html");
    assert_eq!(get_content_type("/static/logo.png"), "image/png");
    assert_eq!(get_content_type("/static/photo.jpg"), "image/jpeg");
    assert_eq!(get_content_type("/static/photo.jpeg"), "image/jpeg");
    assert_eq!(get_content_type("/static/data.bin"), "application/octet-stream");
}

#[test]
fn decimal_rendering() {
    assert_eq!(to_decimal(0), "0");
    assert_eq!(to_decimal(7), "7");
    assert_eq!(to_decimal(10), "10");
    assert_eq!(to_decimal(90210), "90210");
}

#[test]
fn responses_carry_exact_lengths() {
    let response = http_response("HTTP/1.1 200 OK", "application/json", "{\"a\":1}");
    assert_eq!(
        response,
        "HTTP/1.1 200 OK\r\nContent-Type: application/json\r\nContent-Length: 7\r\n\r\n{\"a\":1}"
    );
    let header = response_header("HTTP/1.1 200 OK", "text/css", 12);
    assert_eq!(header, "HTTP/1.1 200 OK\r\nContent-Type: text/css\r\nContent-Length: 12\r\n\r\n");
}

#[test]
fn fixed_responses() {
    assert_eq!(ok_response(), "HTTP/1.1 200 OK\r\nContent-Length: 0\r\n\r\n");
    assert_eq!(not_found_response(), "HTTP/1.1 404 NOT_FOUND\r\nContent-Length: 0\r\n\r\n");
    assert_eq!(invalid_response(), "HTTP/1.1 400 INVALID_REQUEST\r\nContent-Length: 0\r\n\r\n");
    assert_eq!(
        unauthenticated_response(),
        "HTTP/1.1 401 UNAUTHENTICATED\r\nContent-Length: 0\r\n\r\n"
    );
}

#[test]
fn cookie_clearing_headers() {
    let cleared = clear_cookies_response();
    let expected = "Set-Cookie: id=; Path=/; Expires=Thu, 01 Jan 1970 00:00:00 GMT; SameSite=Strict\r\n\
        Set-Cookie: token=; Path=/; Expires=Thu, 01 Jan 1970 00:00:00 GMT; SameSite=Strict\r\n\
        Set-Cookie: name=; Path=/; Expires=Thu, 01 Jan 1970 00:00:00 GMT; SameSite=Strict\r\n";
    assert_eq!(cleared, expected);
    let redirect = redirect_login_response();
    assert!(redirect.starts_with("HTTP/1.1 302 Found\r\nLocation: /login\r\n"));
    assert!(redirect.ends_with("\r\n"));
    assert!(redirect.contains(&cleared));
}

#[test]
fn string_helpers() {
    assert!(str_eq("abc", "abc"));
    assert!(!str_eq("abc", "abd"));
    assert!(!str_eq("abc", "ab"));
    assert_eq!(trim_str("  hi\t"), "hi");
    let parts = split_str("/api/room/42", '/');
    assert_eq!(parts, vec!["", "api", "room", "42"]);
    assert_eq!(split_str("", ','), vec![""]);
}

#[test]
fn string_map_inserts_and_overwrites() {
    let mut m = StringMap::new();
    assert_eq!(m.get("k"), None);
    m.insert("k".to_string(), "1".to_string());
    m.insert("k".to_string(), "2".to_string());
    assert_eq!(m.get("k"), Some(&"2".to_string()));
    m.clear();
    assert_eq!(m.get("k"), None);
}
