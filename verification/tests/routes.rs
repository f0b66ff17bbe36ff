use restart_that_thang::routes::{handle_request_line, render_response, status_text};

#[test]
fn get_health_is_ok() {
    let r = handle_request_line("GET /health HTTP/1.1\r\n");
    assert_eq!((r.status, r.body), (200, "Healthy\n"));
}

#[test]
fn other_path_is_not_found() {
    let r = handle_request_line("GET /metrics HTTP/1.1\r\n");
    assert_eq!((r.status, r.body), (404, "Not Found\n"));
}

#[test]
fn other_method_is_bad_request() {
    let r = handle_request_line("POST /health HTTP/1.1\r\n");
    assert_eq!((r.status, r.body), (400, "Bad Request\n"));
}

#[test]
fn short_line_is_bad_request() {
    let r = handle_request_line("GET /health\r\n");
    assert_eq!((r.status, r.body), (400, "Bad Request"));
    let r = handle_request_line("");
    assert_eq!(r.status, 400);
}

#[test]
fn status_texts() {
    assert_eq!(status_text(200), "OK");
    assert_eq!(status_text(400), "Bad Request");
    assert_eq!(status_text(404), "Not Found");
    assert_eq!(status_text(500), "Internal Server Error");
}

#[test]
fn response_text_counts_body_bytes() {
    let text = render_response(200, "text/plain", "Healthy\n");
    assert_eq!(
        text,
        "HTTP/1.1 200 OK\r\nContent-Type: text/plain\r\nContent-Length: 8\r\nConnection: close\r\n\r\nHealthy\n"
    );
    let text = render_response(404, "text/plain", "é");
    assert!(text.contains("Content-Length: 2\r\n"));
}
