use static_server::decimal::to_decimal;
use static_server::response::{render, HttpResponse, HttpResponseType};

fn expected(status_line: &str, length: usize, body: &str) -> String {
    format!(
        "{}\r\nContent-Length: {}\r\nContent-Type: text/html; charset=utf-8\r\nConnection: close\r\n\r\n{}",
        status_line, length, body
    )
}

#[test]
fn decimal_of_single_digits() {
    assert_eq!(to_decimal(0), "0");
    assert_eq!(to_decimal(7), "7");
    assert_eq!(to_decimal(9), "9");
}

#[test]
fn decimal_of_longer_numbers() {
    assert_eq!(to_decimal(10), "10");
    assert_eq!(to_decimal(11), "11");
    assert_eq!(to_decimal(100), "100");
    assert_eq!(to_decimal(1024), "1024");
    assert_eq!(to_decimal(9_876_543_210), "9876543210");
}

#[test]
fn decimal_of_the_largest_number() {
    assert_eq!(to_decimal(usize::MAX), usize::MAX.to_string());
}

#[test]
fn decimal_agrees_with_std() {
    let mut n: usize = 0;
    while n < 5000 {
        assert_eq!(to_decimal(n), n.to_string());
        n += 1;
    }
}

#[test]
fn new_response_is_processing() {
    let res = HttpResponse::from(String::from("www/index.html"));
    assert_eq!(res.status(), HttpResponseType::Processing);
    assert_eq!(res.route, "www/index.html");
}

#[test]
fn found_page_is_served_with_200() {
    let mut res = HttpResponse::from(String::from("www/index.html"));
    let out = res.assemble(Some(String::from("<h1>Hi</h1>")), None);
    assert_eq!(res.status(), HttpResponseType::Found);
    assert_eq!(res.route, "www/index.html");
    assert_eq!(
        out,
        "HTTP/1.1 200 OK\r\nContent-Length: 11\r\nContent-Type: text/html; charset=utf-8\r\nConnection: close\r\n\r\n<h1>Hi</h1>"
    );
}

#[test]
fn found_page_wins_over_fallback() {
    let mut res = HttpResponse::from(String::from("www/a.html"));
    let out = res.assemble(Some(String::from("page")), Some(String::from("fallback")));
    assert_eq!(res.status(), HttpResponseType::Found);
    assert_eq!(out, expected("HTTP/1.1 200 OK", 4, "page"));
}

#[test]
fn missing_page_is_served_the_fallback_with_404() {
    let mut res = HttpResponse::from(String::from("www/missing.html"));
    let out = res.assemble(None, Some(String::from("Not here")));
    assert_eq!(res.status(), HttpResponseType::NotFound);
    assert_eq!(res.route, "www/missing.html");
    assert_eq!(
        out,
        "HTTP/1.1 404 Not Found\r\nContent-Length: 8\r\nContent-Type: text/html; charset=utf-8\r\nConnection: close\r\n\r\nNot here"
    );
}

#[test]
fn missing_page_and_fallback_give_the_last_resort() {
    let mut res = HttpResponse::from(String::from("www/missing.html"));
    let out = res.assemble(None, None);
    assert_eq!(res.status(), HttpResponseType::NotFound);
    assert_eq!(
        out,
        "HTTP/1.1 404 Not Found\r\nContent-Length: 16\r\nContent-Type: text/html; charset=utf-8\r\nConnection: close\r\n\r\nError: not found"
    );
}

#[test]
fn content_length_counts_bytes_not_characters() {
    let body = "h\u{e9}llo \u{4e16}\u{754c} \u{1f600}";
    assert_eq!(body.chars().count(), 10);
    assert_eq!(body.len(), 18);
    let out = render(HttpResponseType::Found, body);
    assert_eq!(out, expected("HTTP/1.1 200 OK", 18, body));
    let mut res = HttpResponse::from(String::from("www/x"));
    let out = res.assemble(None, Some(String::from(body)));
    assert_eq!(out, expected("HTTP/1.1 404 Not Found", 18, body));
}

#[test]
fn empty_body_has_length_zero() {
    let out = render(HttpResponseType::Found, "");
    assert_eq!(
        out,
        "HTTP/1.1 200 OK\r\nContent-Length: 0\r\nContent-Type: text/html; charset=utf-8\r\nConnection: close\r\n\r\n"
    );
}

#[test]
fn processing_renders_as_500() {
    let out = render(HttpResponseType::Processing, "oops");
    assert_eq!(out, expected("HTTP/1.1 500 Internal Server Error", 4, "oops"));
}

#[test]
fn blank_line_ends_the_header_block() {
    let body = "first\r\n\r\nsecond";
    let out = render(HttpResponseType::NotFound, body);
    let at = out.find("\r\n\r\n").unwrap();
    assert_eq!(&out[at + 4..], body);
    let head = &out[..at];
    let lines: Vec<&str> = head.split("\r\n").collect();
    assert_eq!(lines.len(), 4);
    assert_eq!(lines[0], "HTTP/1.1 404 Not Found");
    assert_eq!(lines[1], "Content-Length: 15");
    assert_eq!(lines[2], "Content-Type: text/html; charset=utf-8");
    assert_eq!(lines[3], "Connection: close");
}

#[test]
fn connection_close_stands_once_in_the_head() {
    let statuses = [
        HttpResponseType::Found,
        HttpResponseType::NotFound,
        HttpResponseType::Processing,
    ];
    for status in statuses {
        let out = render(status, "body");
        let at = out.find("\r\n\r\n").unwrap();
        let head = &out[..at];
        let count = head
            .split("\r\n")
            .filter(|line| line.starts_with("Connection:"))
            .count();
        assert_eq!(count, 1);
        assert_eq!(head.split("\r\n").last(), Some("Connection: close"));
    }
}

#[test]
fn announced_length_is_the_length_of_what_follows() {
    let bodies = ["", "a", "<h1>Hi</h1>", "\u{e9}\u{e9}", "line\nline\r\n", "\u{10348}"];
    for body in bodies {
        let out = render(HttpResponseType::Found, body);
        let at = out.find("\r\n\r\n").unwrap();
        let announced: usize = out[..at]
            .split("\r\n")
            .find_map(|line| line.strip_prefix("Content-Length: "))
            .unwrap()
            .parse()
            .unwrap();
        assert_eq!(announced, out.as_bytes().len() - (at + 4));
        assert_eq!(announced, body.len());
    }
}

#[test]
fn large_body_is_framed_whole() {
    let body = "x".repeat(100_000);
    let out = render(HttpResponseType::Found, &body);
    assert_eq!(out, expected("HTTP/1.1 200 OK", 100_000, &body));
}
