use http::headers::Headers;
use http::httpresponse::HttpResponse;

/// Splits a message at its blank line and reads the number after
/// `Content-Length: `.
fn parts(message: &[u8]) -> (String, usize, Vec<u8>) {
    let blank = message
        .windows(4)
        .position(|w| w == b"\r\n\r\n")
        .unwrap();
    let head = String::from_utf8(message[..blank].to_vec()).unwrap();
    let body = message[blank + 4..].to_vec();
    let mut lines = head.split("\r\n");
    let status_line = lines.next().unwrap().to_string();
    let length_line = lines.next().unwrap();
    assert_eq!(lines.next(), None);
    let digits = length_line.strip_prefix("Content-Length: ").unwrap();
    assert!(!digits.is_empty());
    assert!(digits.bytes().all(|b| b.is_ascii_digit()));
    (status_line, digits.parse().unwrap(), body)
}

#[test]
fn not_found_without_body_is_exactly_this() {
    let response = HttpResponse::new("404", None, None);
    let text: String = response.into();
    assert_eq!(text, "HTTP/1.1 404 NOT FOUND\r\nContent-Length: 0\r\n\r\n");
}

#[test]
fn ok_with_body_is_exactly_this() {
    let response = HttpResponse::new("200", None, Some("xxx"));
    assert_eq!(
        response.to_wire_text(),
        "HTTP/1.1 200 OK\r\nContent-Length: 3\r\n\r\nxxx"
    );
}

#[test]
fn content_length_counts_bytes_and_the_body_follows_unchanged() {
    let long = "x".repeat(12345);
    let bodies = [
        "",
        "a",
        "hello world",
        "line one\r\nline two\r\n\r\nline four",
        "h\u{e9}llo",
        "\u{65e5}\u{672c}\u{8a9e}",
        "\u{1f600} and \u{10348}",
        "\u{0}\u{7f}\u{80}\u{7ff}\u{800}\u{ffff}\u{10000}\u{10ffff}",
        long.as_str(),
    ];
    for body in bodies {
        let response = HttpResponse::new("200", None, Some(body));
        let mut message = Vec::new();
        response.send_response(&mut message);
        let (status_line, length, trailing) = parts(&message);
        assert_eq!(status_line, "HTTP/1.1 200 OK");
        assert_eq!(length, body.len());
        assert_eq!(trailing, body.as_bytes());
        assert_eq!(message, response.to_wire_text().into_bytes());
    }
}

#[test]
fn content_length_of_multi_byte_text_is_not_its_character_count() {
    let response = HttpResponse::new("200", None, Some("\u{65e5}\u{672c}\u{8a9e}"));
    assert_eq!(
        response.to_wire_text(),
        "HTTP/1.1 200 OK\r\nContent-Length: 9\r\n\r\n\u{65e5}\u{672c}\u{8a9e}"
    );
}

#[test]
fn absent_body_and_empty_body_are_sent_alike() {
    for code in ["200", "404", "500"] {
        let absent = HttpResponse::new(code, None, None);
        let empty = HttpResponse::new(code, None, Some(""));
        assert_eq!(absent.to_wire_text(), empty.to_wire_text());
        assert!(absent.to_wire_text().ends_with("\r\nContent-Length: 0\r\n\r\n"));
        let mut absent_bytes = Vec::new();
        absent.send_response(&mut absent_bytes);
        let mut empty_bytes = Vec::new();
        empty.send_response(&mut empty_bytes);
        assert_eq!(absent_bytes, empty_bytes);
        let (_, length, trailing) = parts(&absent_bytes);
        assert_eq!(length, 0);
        assert!(trailing.is_empty());
    }
}

#[test]
fn rendering_twice_gives_the_same_bytes() {
    let mut given = Headers::new();
    given.insert("X-Foo", "bar");
    let response = HttpResponse::new("200", Some(given), Some("h\u{e9}llo"));
    let before = response.clone();
    let first = response.to_wire_text();
    let second = response.to_wire_text();
    assert_eq!(first, second);
    assert_eq!(response, before);
    let mut one = Vec::new();
    response.send_response(&mut one);
    let mut two = Vec::new();
    response.send_response(&mut two);
    assert_eq!(one, two);
    assert_eq!(one, first.as_bytes());
    let third: String = response.clone().into();
    let fourth: String = String::from(response);
    assert_eq!(third, first);
    assert_eq!(fourth, first);
}

#[test]
fn stored_headers_are_not_sent() {
    let mut given = Headers::new();
    given.insert("X-Foo", "bar");
    given.insert("Content-Length", "999");
    let with_headers = HttpResponse::new("200", Some(given), Some("abc"));
    let without = HttpResponse::new("200", None, Some("abc"));
    assert_eq!(with_headers.to_wire_text(), without.to_wire_text());
    assert_eq!(
        with_headers.to_wire_text(),
        "HTTP/1.1 200 OK\r\nContent-Length: 3\r\n\r\nabc"
    );
}

#[test]
fn status_line_shows_the_fields_as_they_are_stored() {
    let response = HttpResponse {
        version: "HTTP/1.0",
        status_code: "302",
        status_text: "Found",
        headers: None,
        body: Some("moved"),
    };
    assert_eq!(
        response.to_wire_text(),
        "HTTP/1.0 302 Found\r\nContent-Length: 5\r\n\r\nmoved"
    );
}

#[test]
fn send_response_appends_to_what_the_stream_holds() {
    let response = HttpResponse::new("200", None, Some("hi"));
    let mut stream = b"earlier".to_vec();
    response.send_response(&mut stream);
    assert_eq!(
        stream,
        b"earlierHTTP/1.1 200 OK\r\nContent-Length: 2\r\n\r\nhi".to_vec()
    );
    response.send_response(&mut stream);
    assert_eq!(
        stream,
        b"earlierHTTP/1.1 200 OK\r\nContent-Length: 2\r\n\r\nhiHTTP/1.1 200 OK\r\nContent-Length: 2\r\n\r\nhi"
            .to_vec()
    );
}
