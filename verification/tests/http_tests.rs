use workpool::http::build_response;
use workpool::http::frame_response;
use workpool::http::route;
use workpool::http::u64_to_decimal;
use workpool::http::Response;
use workpool::http::Route;

#[test]
fn index_line_routes_to_index() {
    assert_eq!(route("GET / HTTP/1.1"), Route::Index);
}

#[test]
fn sleep_line_routes_to_slow() {
    assert_eq!(route("GET /sleep HTTP/1.1"), Route::Slow);
}

#[test]
fn unrecognized_lines_route_to_not_found() {
    assert_eq!(route("GET /missing HTTP/1.1"), Route::NotFound);
    assert_eq!(route("POST / HTTP/1.1"), Route::NotFound);
    assert_eq!(route(""), Route::NotFound);
}

#[test]
fn create_ok_sets_success_status() {
    let r = Response::create_ok(String::from("hello"));
    assert_eq!(r.status, "HTTP/1.1 200 OK");
    assert_eq!(r.contents, "hello");
}

#[test]
fn create_not_found_sets_failure_status() {
    let r = Response::create_not_found(String::from("gone"));
    assert_eq!(r.status, "HTTP/1.1 400 NOT FOUND");
    assert_eq!(r.contents, "gone");
}

#[test]
fn index_route_serves_page_with_matching_content_length() {
    let page = String::from("<html>hi</html>");
    let missing = String::from("<html>404</html>");
    let resp = build_response(route("GET / HTTP/1.1"), page.clone(), missing);
    assert_eq!(resp.status, "HTTP/1.1 200 OK");
    assert_eq!(resp.contents, page);
    let wire = frame_response(&resp);
    assert_eq!(
        wire,
        "HTTP/1.1 200 OK\r\nContent-Length: 15\r\n\r\n<html>hi</html>"
    );
    assert!(wire.ends_with(&page));
    assert!(wire.contains(&format!("Content-Length: {}", page.len())));
}

#[test]
fn unrecognized_route_serves_not_found_page() {
    let page = String::from("<html>hi</html>");
    let missing = String::from("<html>404</html>");
    let resp = build_response(route("GET /other HTTP/1.1"), page, missing.clone());
    assert_eq!(resp.status, "HTTP/1.1 400 NOT FOUND");
    assert_eq!(resp.contents, missing);
    let wire = frame_response(&resp);
    assert_eq!(
        wire,
        "HTTP/1.1 400 NOT FOUND\r\nContent-Length: 16\r\n\r\n<html>404</html>"
    );
}

#[test]
fn slow_route_serves_the_same_page_as_index() {
    let page = String::from("body");
    let missing = String::from("nope");
    let resp = build_response(Route::Slow, page, missing);
    assert_eq!(resp.status, "HTTP/1.1 200 OK");
    assert_eq!(resp.contents, "body");
}

#[test]
fn content_length_counts_bytes_not_characters() {
    let resp = Response::create_ok(String::from("héllo"));
    let wire = frame_response(&resp);
    assert_eq!(wire, "HTTP/1.1 200 OK\r\nContent-Length: 6\r\n\r\nhéllo");
}

#[test]
fn empty_body_has_content_length_zero() {
    let resp = Response::create_ok(String::new());
    let wire = frame_response(&resp);
    assert_eq!(wire, "HTTP/1.1 200 OK\r\nContent-Length: 0\r\n\r\n");
}

#[test]
fn decimal_rendering_is_exact() {
    assert_eq!(u64_to_decimal(0), "0");
    assert_eq!(u64_to_decimal(7), "7");
    assert_eq!(u64_to_decimal(10), "10");
    assert_eq!(u64_to_decimal(105), "105");
    assert_eq!(u64_to_decimal(18446744073709551615), "18446744073709551615");
}
