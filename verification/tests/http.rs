use hello_web::text::to_decimal;
use hello_web::{response, route, starts_with, Route};

fn padded(request: &str) -> [u8; 1024] {
    let mut buffer = [0u8; 1024];
    buffer[..request.len()].copy_from_slice(request.as_bytes());
    buffer
}

#[test]
fn starts_with_wants_method_space_and_version() {
    assert!(starts_with(b"GET / HTTP/1.1\r\nHost: x\r\n\r\n", "GET /"));
    assert!(starts_with(b"GET / HTTP/1.1", "GET /"));
    assert!(!starts_with(b"GET / HTTP/1.0\r\n", "GET /"));
    assert!(!starts_with(b"GET /sleep HTTP/1.1\r\n", "GET /"));
    assert!(starts_with(b"GET /sleep HTTP/1.1\r\n", "GET /sleep"));
    assert!(!starts_with(b"GET / HTTP/1.", "GET /"));
    assert!(!starts_with(b"", "GET /"));
    assert!(!starts_with(b" GET / HTTP/1.1", "GET /"));
    assert!(starts_with(b" HTTP/1.1", ""));
    assert!(!starts_with(b"get / HTTP/1.1", "GET /"));
    assert!(!starts_with(b"GET /  HTTP/1.1", "GET /"));
}

#[test]
fn starts_with_compares_bytes_of_the_method() {
    let request = "GET /caf\u{e9} HTTP/1.1\r\n";
    assert!(starts_with(request.as_bytes(), "GET /caf\u{e9}"));
    assert!(!starts_with(request.as_bytes(), "GET /cafe"));
}

#[test]
fn route_picks_the_page() {
    assert_eq!(route(&padded("GET / HTTP/1.1\r\n\r\n")), Route::Hello);
    assert_eq!(route(&padded("GET /sleep HTTP/1.1\r\n\r\n")), Route::Sleep);
    assert_eq!(route(&padded("GET /favicon.ico HTTP/1.1\r\n\r\n")), Route::Favicon);
    assert_eq!(route(&padded("GET /other HTTP/1.1\r\n\r\n")), Route::NotFound);
    assert_eq!(route(&padded("POST / HTTP/1.1\r\n\r\n")), Route::NotFound);
    assert_eq!(route(&padded("")), Route::NotFound);
    assert_eq!(route(b""), Route::NotFound);
}

#[test]
fn route_knows_its_answer() {
    assert_eq!(Route::Hello.status_line(), "HTTP/1.1 200 OK");
    assert_eq!(Route::Sleep.status_line(), "HTTP/1.1 200 OK");
    assert_eq!(Route::Favicon.status_line(), "HTTP/1.1 200 OK");
    assert_eq!(Route::NotFound.status_line(), "HTTP/1.1 404 NOT FOUND");
    assert_eq!(Route::Hello.filename(), "hello.html");
    assert_eq!(Route::Sleep.filename(), "hello.html");
    assert_eq!(Route::Favicon.filename(), "rust-language-icon.svg");
    assert_eq!(Route::NotFound.filename(), "404.html");
    assert_eq!(Route::Hello.content_type(), "");
    assert_eq!(Route::Sleep.content_type(), "");
    assert_eq!(Route::Favicon.content_type(), "Content-Type: image/svg+xml\r\n");
    assert_eq!(Route::NotFound.content_type(), "");
    assert_eq!(Route::Hello.delay_secs(), 0);
    assert_eq!(Route::Sleep.delay_secs(), 5);
    assert_eq!(Route::Favicon.delay_secs(), 0);
    assert_eq!(Route::NotFound.delay_secs(), 0);
}

#[test]
fn response_frames_the_body() {
    assert_eq!(
        response("HTTP/1.1 200 OK", "", "<h1>Hello!</h1>"),
        "HTTP/1.1 200 OK\r\nContent-Length: 15\r\n\r\n<h1>Hello!</h1>"
    );
    assert_eq!(
        response("HTTP/1.1 404 NOT FOUND", "", ""),
        "HTTP/1.1 404 NOT FOUND\r\nContent-Length: 0\r\n\r\n"
    );
    assert_eq!(
        response("HTTP/1.1 200 OK", "Content-Type: image/svg+xml\r\n", "<svg/>"),
        "HTTP/1.1 200 OK\r\nContent-Length: 6\r\nContent-Type: image/svg+xml\r\n\r\n<svg/>"
    );
}

#[test]
fn response_counts_bytes_not_characters() {
    assert_eq!(
        response("HTTP/1.1 200 OK", "", "caf\u{e9}"),
        "HTTP/1.1 200 OK\r\nContent-Length: 5\r\n\r\ncaf\u{e9}"
    );
}

#[test]
fn respond_uses_the_route() {
    assert_eq!(
        Route::Favicon.respond("<svg/>"),
        "HTTP/1.1 200 OK\r\nContent-Length: 6\r\nContent-Type: image/svg+xml\r\n\r\n<svg/>"
    );
    assert_eq!(
        Route::NotFound.respond("gone"),
        "HTTP/1.1 404 NOT FOUND\r\nContent-Length: 4\r\n\r\ngone"
    );
    assert_eq!(Route::Sleep.respond("x"), Route::Hello.respond("x"));
}

#[test]
fn decimal_numerals() {
    assert_eq!(to_decimal(0), "0");
    assert_eq!(to_decimal(7), "7");
    assert_eq!(to_decimal(10), "10");
    assert_eq!(to_decimal(109), "109");
    assert_eq!(to_decimal(1024), "1024");
    assert_eq!(to_decimal(usize::MAX), usize::MAX.to_string());
}
