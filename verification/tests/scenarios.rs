use static_server::request::{dispatch, Dispatch, REQUEST_SIZE};
use static_server::response::HttpResponseType;

fn request(line: &str) -> Vec<u8> {
    let mut buffer = format!("{}\r\nHost: localhost:8080\r\nAccept: */*\r\n\r\n", line).into_bytes();
    buffer.resize(REQUEST_SIZE, b' ');
    buffer
}

fn site(route: &str, files: &[(&str, &str)]) -> Option<String> {
    files
        .iter()
        .find(|(name, _)| *name == route)
        .map(|(_, content)| String::from(*content))
}

fn serve(line: &str, files: &[(&str, &str)]) -> (HttpResponseType, String) {
    match dispatch(&request(line)) {
        Dispatch::Respond(mut res) => {
            let page = site(&res.route, files);
            let fallback = if page.is_none() {
                site("www/404.html", files)
            } else {
                None
            };
            let out = res.assemble(page, fallback);
            (res.status(), out)
        }
        _ => panic!("a response is owed"),
    }
}

#[test]
fn scenario_existing_page() {
    let files = [("www/index.html", "<h1>Hi</h1>")];
    let (status, out) = serve("GET /index.html HTTP/1.1", &files);
    assert_eq!(status, HttpResponseType::Found);
    let mut lines = out.split("\r\n");
    assert_eq!(lines.next(), Some("HTTP/1.1 200 OK"));
    assert_eq!(lines.next(), Some("Content-Length: 11"));
    assert!(out.ends_with("\r\n\r\n<h1>Hi</h1>"));
}

#[test]
fn scenario_missing_page_with_fallback() {
    let files = [("www/index.html", "<h1>Hi</h1>"), ("www/404.html", "Not here")];
    let (status, out) = serve("GET /missing.html HTTP/1.1", &files);
    assert_eq!(status, HttpResponseType::NotFound);
    let mut lines = out.split("\r\n");
    assert_eq!(lines.next(), Some("HTTP/1.1 404 Not Found"));
    assert_eq!(lines.next(), Some("Content-Length: 8"));
    assert!(out.ends_with("\r\n\r\nNot here"));
}

#[test]
fn scenario_missing_page_without_fallback() {
    let files = [("www/index.html", "<h1>Hi</h1>")];
    let (status, out) = serve("GET /missing.html HTTP/1.1", &files);
    assert_eq!(status, HttpResponseType::NotFound);
    let mut lines = out.split("\r\n");
    assert_eq!(lines.next(), Some("HTTP/1.1 404 Not Found"));
    assert_eq!(lines.next(), Some("Content-Length: 16"));
    assert!(out.ends_with("\r\n\r\nError: not found"));
}

#[test]
fn every_existing_page_is_served_as_it_is() {
    let files = [
        ("www/index.html", "<h1>Hi</h1>"),
        ("www/about.html", "about \u{2014} us"),
        ("www/empty.html", ""),
        ("www/404.html", "Not here"),
        ("www/css/site.css", "body { margin: 0 }\r\n"),
    ];
    for (route, content) in files {
        let line = format!("GET /{} HTTP/1.1", route.strip_prefix("www/").unwrap());
        let (status, out) = serve(&line, &files);
        assert_eq!(status, HttpResponseType::Found);
        let head = format!(
            "HTTP/1.1 200 OK\r\nContent-Length: {}\r\nContent-Type: text/html; charset=utf-8\r\nConnection: close\r\n\r\n",
            content.len()
        );
        assert_eq!(out, format!("{}{}", head, content));
    }
}

#[test]
fn root_is_served_the_index_page() {
    let files = [("www/index.html", "<h1>Hi</h1>")];
    assert_eq!(serve("GET / HTTP/1.1", &files), serve("GET /index.html HTTP/1.1", &files));
    assert_eq!(serve("GET / HTTP/1.1", &files), serve("GET index.html HTTP/1.1", &files));
    assert_eq!(serve("GET / HTTP/1.1", &files).0, HttpResponseType::Found);
}

#[test]
fn get_without_target_is_served_the_fallback_page_as_found() {
    let files = [("www/404.html", "Not here")];
    let (status, out) = serve("GET", &files);
    assert_eq!(status, HttpResponseType::Found);
    assert!(out.starts_with("HTTP/1.1 200 OK\r\n"));
    assert!(out.ends_with("\r\n\r\nNot here"));
}

#[test]
fn other_methods_are_served_like_get() {
    let files = [("www/index.html", "<h1>Hi</h1>"), ("www/404.html", "Not here")];
    assert_eq!(serve("POST /index.html HTTP/1.1", &files), serve("GET /index.html HTTP/1.1", &files));
    let (status, _) = serve("POST / HTTP/1.1", &files);
    assert_eq!(status, HttpResponseType::NotFound);
}
