use bounty::response::{decimal_text, media_type, Response};

const PNG: [u8; 16] = [
    0x89, 0x50, 0x4e, 0x47, 0x0d, 0x0a, 0x1a, 0x0a, 0x00, 0x00, 0x00, 0x0d, 0x49, 0x48, 0x44, 0x52,
];

#[test]
fn decimal_of_small_numbers() {
    assert_eq!(decimal_text(0), "0");
    assert_eq!(decimal_text(7), "7");
    assert_eq!(decimal_text(9), "9");
    assert_eq!(decimal_text(10), "10");
    assert_eq!(decimal_text(42), "42");
    assert_eq!(decimal_text(100), "100");
    assert_eq!(decimal_text(1234567890), "1234567890");
}

#[test]
fn decimal_of_the_largest_number() {
    assert_eq!(decimal_text(usize::MAX), usize::MAX.to_string());
}

#[test]
fn text_response_on_the_wire() {
    let response = Response::text("404 Not Found", "text/html", "Not Found");
    assert_eq!(
        response.to_bytes(),
        b"HTTP/1.1 404 Not Found\r\nContent-Type: text/html\r\nContent-Length: 9\r\n\r\nNot Found"
            .to_vec()
    );
}

#[test]
fn empty_body_on_the_wire() {
    let response = Response::text("200 OK", "text/plain", "");
    assert_eq!(
        response.to_bytes(),
        b"HTTP/1.1 200 OK\r\nContent-Type: text/plain\r\nContent-Length: 0\r\n\r\n".to_vec()
    );
}

#[test]
fn content_length_counts_bytes() {
    let response = Response::text("200 OK", "text/html", "é日本");
    assert_eq!(response.body.len(), 8);
    assert_eq!(
        response.to_bytes(),
        "HTTP/1.1 200 OK\r\nContent-Type: text/html\r\nContent-Length: 8\r\n\r\né日本"
            .as_bytes()
            .to_vec()
    );
}

#[test]
fn binary_body_goes_out_untouched() {
    let body: Vec<u8> = vec![0x00, 0xff, 0xfe, 0x80, 0x0d, 0x0a];
    let response = Response {
        status: "200 OK".to_string(),
        content_type: "application/octet-stream".to_string(),
        body: body.clone(),
    };
    let mut expected =
        b"HTTP/1.1 200 OK\r\nContent-Type: application/octet-stream\r\nContent-Length: 6\r\n\r\n"
            .to_vec();
    expected.extend_from_slice(&body);
    assert_eq!(response.to_bytes(), expected);
}

#[test]
fn the_refusals() {
    let not_found = Response::not_found();
    assert_eq!(not_found.status, "404 Not Found");
    assert_eq!(not_found.content_type, "text/html");
    assert_eq!(not_found.body, b"Not Found".to_vec());
    let not_allowed = Response::method_not_allowed();
    assert_eq!(not_allowed.status, "405 Method Not Allowed");
    assert_eq!(not_allowed.content_type, "text/html");
    assert_eq!(not_allowed.body, b"Method Not Allowed".to_vec());
    let forbidden = Response::forbidden();
    assert_eq!(forbidden.status, "403 Forbidden");
    assert_eq!(forbidden.content_type, "text/html");
    assert_eq!(forbidden.body, b"Forbidden".to_vec());
    let failed = Response::internal_server_error();
    assert_eq!(failed.status, "500 Internal Server Error");
    assert_eq!(failed.content_type, "text/html");
    assert_eq!(failed.body, b"Internal Server Error".to_vec());
}

#[test]
fn method_not_allowed_on_the_wire() {
    assert_eq!(
        Response::method_not_allowed().to_bytes(),
        b"HTTP/1.1 405 Method Not Allowed\r\nContent-Type: text/html\r\nContent-Length: 18\r\n\r\nMethod Not Allowed"
            .to_vec()
    );
}

#[test]
fn page_is_html_with_status_ok() {
    let response = Response::page("<p>hi</p>");
    assert_eq!(response.status, "200 OK");
    assert_eq!(response.content_type, "text/html");
    assert_eq!(response.body, b"<p>hi</p>".to_vec());
}

#[test]
fn media_type_falls_back_to_octet_stream() {
    assert_eq!(media_type(None), "application/octet-stream");
    assert_eq!(media_type(Some("image/png")), "image/png");
    assert_eq!(media_type(Some("")), "");
}

#[test]
fn sniffed_type_is_announced() {
    let response = Response::with_sniffed_type(vec![1, 2, 3], Some("video/mp4"));
    assert_eq!(response.status, "200 OK");
    assert_eq!(response.content_type, "video/mp4");
    assert_eq!(response.body, vec![1, 2, 3]);
    let plain = Response::with_sniffed_type(vec![1, 2, 3], None);
    assert_eq!(plain.content_type, "application/octet-stream");
    assert_eq!(plain.body, vec![1, 2, 3]);
}

#[test]
fn png_is_served_as_png() {
    let response = Response::file(PNG.to_vec());
    assert_eq!(response.status, "200 OK");
    assert_eq!(response.content_type, "image/png");
    assert_eq!(response.body, PNG.to_vec());
}

#[test]
fn other_signatures_are_told_apart() {
    assert_eq!(Response::file(vec![0xff, 0xd8, 0xff, 0xaa]).content_type, "image/jpeg");
    assert_eq!(Response::file(b"GIF89a\x01\x00\x01\x00".to_vec()).content_type, "image/gif");
    assert_eq!(Response::file(b"%PDF-1.4\n".to_vec()).content_type, "application/pdf");
}

#[test]
fn unknown_content_is_octet_stream() {
    let content = b"just some words".to_vec();
    let response = Response::file(content.clone());
    assert_eq!(response.status, "200 OK");
    assert_eq!(response.content_type, "application/octet-stream");
    assert_eq!(response.body, content);
    assert_eq!(Response::file(Vec::new()).content_type, "application/octet-stream");
}

#[test]
fn sniffing_copes_with_short_and_odd_content() {
    for len in 0..PNG.len() {
        let response = Response::file(PNG[..len].to_vec());
        assert_eq!(response.body, PNG[..len].to_vec());
    }
    for byte in 0..=255u8 {
        for len in [1usize, 4, 8, 40, 300] {
            let content = vec![byte; len];
            assert_eq!(Response::file(content.clone()).body, content);
        }
    }
}

#[test]
fn frame_that_claims_more_than_there_is_has_no_known_type() {
    assert_eq!(usize::BITS, 64);
    let content = vec![0x50, 0x2a, 0x4d, 0x18, 0xf8, 0xff, 0xff, 0xff];
    let response = Response::file(content.clone());
    assert_eq!(response.content_type, "application/octet-stream");
    assert_eq!(response.body, content);
}
