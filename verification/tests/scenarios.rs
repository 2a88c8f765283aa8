use httpencode::{
    request, response, CheckedField, CheckedValue, Header, HttpBuilder, Method, Sink, Status, Uri,
    Version,
};

#[test]
fn request_without_headers() {
    let builder = request(
        Sink::new(vec![]),
        Method::get(),
        Uri::try_new(b"/").unwrap(),
        Version::http_1_1(),
    )
    .unwrap();
    let output = builder.finish().unwrap().into_inner();
    assert_eq!(std::str::from_utf8(&output).unwrap(), "GET / HTTP/1.1\r\n\r\n");
}

#[test]
fn response_with_custom_reason() {
    let builder = response(
        Sink::new(vec![]),
        Version::http_1_0(),
        Status::with_reason(418, "I'm a Teapot"),
    )
    .unwrap();
    let output = builder.finish().unwrap().into_inner();
    assert_eq!(output, b"HTTP/1.0 418 I'm a Teapot\r\n\r\n");
}

#[test]
fn fold_in_a_header_value_stays() {
    let mut sink = Sink::new(vec![]);
    Header::new("Includes-Space", "Multiline string\r\n with space after CRLF")
        .write_to(&mut sink)
        .unwrap();
    assert_eq!(
        sink.into_inner(),
        b"Includes-Space: Multiline string\r\n with space after CRLF\r\n"
    );
}

#[test]
fn bare_line_break_in_a_header_value_is_folded() {
    let mut sink = Sink::new(vec![]);
    Header::new("X", "line1\r\nline2").write_to(&mut sink).unwrap();
    assert_eq!(sink.into_inner(), b"X: line1\r\n\tline2\r\n");
}

#[test]
fn headers_keep_their_order_and_repeat() {
    let mut builder =
        HttpBuilder::response(Sink::new(vec![]), Version::http_1_1(), Status::with_reason(418, "I'm a Teapot"))
            .unwrap();
    builder.header(Header::new("Foo", "Bar")).unwrap();
    builder.header(Header::new("Content-Type", "text/json")).unwrap();
    builder.header(Header::new("Content-Length", 0)).unwrap();
    builder.header(Header::new("Foo", "Again")).unwrap();
    let output = builder.finish().unwrap().into_inner();
    assert_eq!(
        std::str::from_utf8(&output).unwrap(),
        "HTTP/1.1 418 I'm a Teapot\r\n\
         Foo: Bar\r\n\
         Content-Type: text/json\r\n\
         Content-Length: 0\r\n\
         Foo: Again\r\n\
         \r\n"
    );
}

#[test]
fn header_calls_chain() {
    let mut builder = HttpBuilder::from_buffer(Sink::new(vec![]));
    builder
        .header(Header::new("A", 1u8))
        .unwrap()
        .header(Header::new("B", -2i64))
        .unwrap();
    assert_eq!(builder.finish().unwrap().into_inner(), b"A: 1\r\nB: -2\r\n\r\n");
}

#[test]
fn builder_from_a_buffer_writes_no_start_line() {
    let buffer = b"GET /example MY_OWN_PROTOCOL\r\n".to_vec();
    let mut builder = HttpBuilder::from_buffer(Sink::new(buffer));
    builder.header(Header::new("Foo", "Bar")).unwrap();
    let output = builder.finish().unwrap().into_inner();
    assert_eq!(
        output,
        b"GET /example MY_OWN_PROTOCOL\r\n\
          Foo: Bar\r\n\
          \r\n"
    );
}

#[test]
fn into_inner_leaves_the_section_open() {
    let mut builder = HttpBuilder::from_buffer(Sink::new(vec![]));
    builder.header(Header::new("Foo", "Bar")).unwrap();
    assert_eq!(builder.into_inner().into_inner(), b"Foo: Bar\r\n");
}

#[test]
fn checked_parts_make_the_same_header() {
    let field = CheckedField::new("Accept");
    let value = CheckedValue::new(b"text/html,*/*;q=0.8");
    let mut sink = Sink::new(vec![]);
    Header::checked_new(field, value).write_to(&mut sink).unwrap();
    assert_eq!(sink.into_inner(), b"Accept: text/html,*/*;q=0.8\r\n");
}

#[test]
fn version_numbers_are_written_in_decimal() {
    let mut sink = Sink::new(vec![]);
    Version::http(10, 255).write_to(&mut sink).unwrap();
    assert_eq!(sink.into_inner(), b"HTTP/10.255");
    let version = Version::http(2, 0);
    assert_eq!(version.major(), 2);
    assert_eq!(version.minor(), 0);
    assert_eq!(Version::http_1_0().major(), 1);
    assert_eq!(Version::http_1_0().minor(), 0);
    assert_eq!(Version::http_1_1().minor(), 1);
}

#[test]
fn method_and_uri_are_written_as_they_are() {
    let mut sink = Sink::new(vec![]);
    Method::new("M-SEARCH").write_to(&mut sink).unwrap();
    Uri::new(b"/\xff?q").write_to(&mut sink).unwrap();
    assert_eq!(sink.into_inner(), b"M-SEARCH/\xff?q");
}

#[test]
fn status_has_the_registered_reason() {
    assert_eq!(Status::new(100).reason(), "Continue");
    assert_eq!(Status::new(200).reason(), "OK");
    assert_eq!(Status::new(226).reason(), "IM Used");
    assert_eq!(Status::new(308).reason(), "Permanent Redirect");
    assert_eq!(Status::new(404).reason(), "Not Found");
    assert_eq!(Status::new(418).reason(), "I'm a Teapot");
    assert_eq!(Status::new(451).reason(), "Unavailable for Legal Reasons");
    assert_eq!(Status::new(511).reason(), "Network Authentication Required");
    assert_eq!(Status::new(418).code(), 418);
    assert_eq!(Status::reason_phrase(503), Some("Service Unavailable"));
}

#[test]
fn status_outside_the_registry_has_no_reason() {
    for code in [0u16, 1, 99, 104, 199, 209, 306, 419, 427, 430, 450, 509, 512, 513, 600, 999, u16::MAX] {
        assert_eq!(Status::new(code).reason(), "");
        assert_eq!(Status::new(code).code(), code);
        assert_eq!(Status::reason_phrase(code), None);
    }
    let builder = response(Sink::new(vec![]), Version::http_1_1(), Status::new(600)).unwrap();
    assert_eq!(builder.finish().unwrap().into_inner(), b"HTTP/1.1 600 \r\n\r\n");
}

#[test]
fn custom_reason_overrides_the_registry() {
    let status = Status::with_reason(600, "Not a valid status");
    assert_eq!(status.code(), 600);
    assert_eq!(status.reason(), "Not a valid status");
    let status = Status::with_reason(200, "Fine");
    assert_eq!(status.reason(), "Fine");
    let builder = response(Sink::new(vec![]), Version::http_1_1(), Status::with_reason(200, "")).unwrap();
    assert_eq!(builder.into_inner().into_inner(), b"HTTP/1.1 200 \r\n");
}
