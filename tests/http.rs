use threadpool::http::{response, route, Page};

#[test]
fn front_page_request_gets_index() {
    let page = route(&String::from("GET / HTTP/1.1"));
    assert_eq!(page, Page::Index);
    assert_eq!(page.status(), "HTTP/1.1 200 OK");
    assert_eq!(page.file(), "./templates/index.html");
}

#[test]
fn other_requests_get_not_found() {
    for line in ["GET /about HTTP/1.1", "GET / HTTP/1.0", "POST / HTTP/1.1", ""] {
        let page = route(&String::from(line));
        assert_eq!(page, Page::NotFound);
        assert_eq!(page.status(), "HTTP/1.1 404 NOT FOUND");
        assert_eq!(page.file(), "./templates/404.html");
    }
}

#[test]
fn reply_carries_length_and_body() {
    assert_eq!(
        response("HTTP/1.1 200 OK", "<p>hello</p>"),
        "HTTP/1.1 200 OK\r\nContent-Length: 12\r\n\r\n<p>hello</p>"
    );
}

#[test]
fn reply_to_empty_body_has_length_zero() {
    assert_eq!(
        response("HTTP/1.1 404 NOT FOUND", ""),
        "HTTP/1.1 404 NOT FOUND\r\nContent-Length: 0\r\n\r\n"
    );
}

#[test]
fn reply_length_counts_bytes() {
    let body = "é".repeat(60);
    let reply = response("HTTP/1.1 200 OK", &body);
    assert_eq!(reply, format!("HTTP/1.1 200 OK\r\nContent-Length: 120\r\n\r\n{body}"));
}
