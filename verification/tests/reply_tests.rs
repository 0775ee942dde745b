use workpool::reply::{is_sleep_request, reply_to};

#[test]
fn sleep_request_gets_the_slow_reply() {
    let mut buffer = [0u8; 1024];
    let line = b"GET /sleep HTTP/1.1\r\nHost: localhost\r\n\r\n";
    buffer[..line.len()].copy_from_slice(line);
    assert!(is_sleep_request(&buffer));
    let reply = reply_to(&buffer);
    assert_eq!(reply.delay_secs, 5);
    assert_eq!(reply.status_line, "HTTP/1.1 200 OK");
    assert_eq!(reply.content, "Slow Response\n");
}

#[test]
fn other_requests_get_the_fast_reply() {
    let mut buffer = [0u8; 1024];
    let line = b"GET / HTTP/1.1\r\n\r\n";
    buffer[..line.len()].copy_from_slice(line);
    assert!(!is_sleep_request(&buffer));
    let reply = reply_to(&buffer);
    assert_eq!(reply.delay_secs, 0);
    assert_eq!(reply.status_line, "HTTP/1.1 200 OK");
    assert_eq!(reply.content, "Fast Response\n");
}

#[test]
fn exact_request_line_is_enough() {
    assert!(is_sleep_request(b"GET /sleep HTTP/1.1\r\n"));
}

#[test]
fn short_or_altered_request_lines_do_not_sleep() {
    assert!(!is_sleep_request(b""));
    assert!(!is_sleep_request(b"GET /sleep HTTP/1.1\r"));
    assert!(!is_sleep_request(b"GET /sleep HTTP/1.1\n\r"));
    assert!(!is_sleep_request(b"GET /sleeq HTTP/1.1\r\n"));
    assert!(!is_sleep_request(b"get /sleep HTTP/1.1\r\n"));
    assert!(!is_sleep_request(b" GET /sleep HTTP/1.1\r\n"));
    assert!(!is_sleep_request(b"GET /sleep HTTP/1.0\r\n"));
}

#[test]
fn empty_buffer_gets_the_fast_reply() {
    let buffer = [0u8; 1024];
    let reply = reply_to(&buffer);
    assert_eq!(reply.delay_secs, 0);
    assert_eq!(reply.content, "Fast Response\n");
}
