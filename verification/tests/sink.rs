use httpencode::{
    CheckedValue, Header, HttpBuilder, HttpWriteable, Method, Sink, Status, Uri, Version,
};

#[test]
fn new_sink_keeps_the_bytes_it_was_given() {
    let sink = Sink::new(b"abc".to_vec());
    assert_eq!(sink.as_bytes(), b"abc");
    assert_eq!(sink.remaining_mut(), isize::MAX as usize - 3);
    assert_eq!(sink.into_inner(), b"abc");
}

#[test]
fn limit_is_the_room() {
    let sink = Sink::with_limit(b"abc".to_vec(), 10);
    assert_eq!(sink.remaining_mut(), 10);
    assert_eq!(sink.as_bytes(), b"abc");
    let sink = Sink::with_limit(vec![], 0);
    assert_eq!(sink.remaining_mut(), 0);
    let sink = Sink::with_limit(vec![], usize::MAX);
    assert_eq!(sink.remaining_mut(), isize::MAX as usize);
}

#[test]
fn put_slice_appends_and_uses_room() {
    let mut sink = Sink::with_limit(b"ab".to_vec(), 5);
    assert!(sink.try_put_slice(b"cde").is_ok());
    assert_eq!(sink.as_bytes(), b"abcde");
    assert_eq!(sink.remaining_mut(), 2);
    assert!(sink.try_put_slice(b"").is_ok());
    assert_eq!(sink.remaining_mut(), 2);
    assert!(sink.try_put_slice(b"fg").is_ok());
    assert_eq!(sink.remaining_mut(), 0);
    assert_eq!(sink.into_inner(), b"abcdefg");
}

#[test]
fn put_slice_that_does_not_fit_writes_nothing() {
    let mut sink = Sink::with_limit(b"ab".to_vec(), 2);
    let err = sink.try_put_slice(b"cde").unwrap_err();
    assert_eq!(err.message(), "Buffer had insufficient space");
    assert_eq!(sink.as_bytes(), b"ab");
    assert_eq!(sink.remaining_mut(), 2);
    assert!(sink.try_put_slice(b"cd").is_ok());
    assert!(sink.try_put_slice(b"").is_ok());
    assert!(sink.try_put_slice(b"e").is_err());
}

#[test]
fn put_u8_appends_one_byte() {
    let mut sink = Sink::with_limit(vec![], 2);
    assert!(sink.try_put_u8(b'x').is_ok());
    assert_eq!(sink.remaining_mut(), 1);
    assert!(sink.try_put_u8(b'y').is_ok());
    assert_eq!(sink.remaining_mut(), 0);
    assert!(sink.try_put_u8(b'z').is_err());
    assert_eq!(sink.into_inner(), b"xy");
}

#[test]
fn nothing_but_the_empty_value_fits_a_full_sink() {
    fn fails<W: HttpWriteable>(value: W) -> bool {
        let mut sink = Sink::with_limit(vec![], 0);
        let failed = value.write_to(&mut sink).is_err();
        failed && sink.into_inner().is_empty()
    }
    assert!(fails(0u8));
    assert!(fails(0u16));
    assert!(fails(0u32));
    assert!(fails(0u64));
    assert!(fails(0u128));
    assert!(fails(0usize));
    assert!(fails(-1i8));
    assert!(fails(-1i16));
    assert!(fails(-1i32));
    assert!(fails(-1i64));
    assert!(fails(i128::MIN));
    assert!(fails(-1isize));
    assert!(fails("a"));
    assert!(fails(&b"a"[..]));
    assert!(fails(String::from("a")));
    assert!(fails(vec![b'a']));
    assert!(fails(CheckedValue::new(b"a")));
    assert!(fails("\r\n"));

    let mut sink = Sink::with_limit(vec![], 0);
    assert!("".write_to(&mut sink).is_ok());
    assert!(CheckedValue::new(b"").write_to(&mut sink).is_ok());
}

#[test]
fn a_value_fits_exactly_where_the_room_is_its_length() {
    for (room, ok) in [(0, false), (1, false), (2, false), (3, true), (4, true)] {
        let mut sink = Sink::with_limit(vec![], room);
        assert_eq!(255u8.write_to(&mut sink).is_ok(), ok);
        let mut sink = Sink::with_limit(vec![], room);
        assert_eq!((-12i8).write_to(&mut sink).is_ok(), ok);
        let mut sink = Sink::with_limit(vec![], room);
        assert_eq!("\r\n".write_to(&mut sink).is_ok(), ok);
    }
}

#[test]
fn a_failed_write_leaves_a_part_behind() {
    let mut sink = Sink::with_limit(vec![], 1);
    assert!((-12i8).write_to(&mut sink).is_err());
    assert_eq!(sink.as_bytes(), b"-");

    let mut sink = Sink::with_limit(vec![], 4);
    assert!("ab\r\ncd".write_to(&mut sink).is_err());
    assert_eq!(sink.as_bytes(), b"ab\r\n");

    let mut sink = Sink::with_limit(vec![], 6);
    assert!("ab\r\ncd".write_to(&mut sink).is_err());
    assert_eq!(sink.as_bytes(), b"ab\r\n\t");

    let mut sink = Sink::with_limit(vec![], 3);
    assert!("ab\r\ncd".write_to(&mut sink).is_err());
    assert_eq!(sink.as_bytes(), b"");
}

#[test]
fn header_line_needs_room_for_all_of_it() {
    let line = b"Name: value\r\n";
    for room in 0..line.len() {
        let mut sink = Sink::with_limit(vec![], room);
        assert!(Header::new("Name", "value").write_to(&mut sink).is_err());
        let written = sink.into_inner();
        assert!(written.len() < line.len());
        assert_eq!(&line[..written.len()], &written[..]);
    }
    let mut sink = Sink::with_limit(vec![], line.len());
    assert!(Header::new("Name", "value").write_to(&mut sink).is_ok());
    assert_eq!(sink.remaining_mut(), 0);
    assert_eq!(sink.into_inner(), line);
}

#[test]
fn start_lines_need_room_for_all_of_them() {
    let line = b"GET / HTTP/1.1\r\n";
    for room in 0..line.len() {
        let sink = Sink::with_limit(vec![], room);
        assert!(
            HttpBuilder::request(sink, Method::get(), Uri::new(b"/"), Version::http_1_1())
                .is_err()
        );
    }
    let sink = Sink::with_limit(vec![], line.len());
    let builder =
        HttpBuilder::request(sink, Method::get(), Uri::new(b"/"), Version::http_1_1()).unwrap();
    assert_eq!(builder.into_inner().into_inner(), line);

    let line = b"HTTP/1.1 404 Not Found\r\n";
    for room in 0..line.len() {
        let sink = Sink::with_limit(vec![], room);
        assert!(HttpBuilder::response(sink, Version::http_1_1(), Status::new(404)).is_err());
    }
    let sink = Sink::with_limit(vec![], line.len());
    let builder = HttpBuilder::response(sink, Version::http_1_1(), Status::new(404)).unwrap();
    assert_eq!(builder.into_inner().into_inner(), line);
}

#[test]
fn finish_needs_two_bytes() {
    for room in 0..2 {
        let builder = HttpBuilder::from_buffer(Sink::with_limit(vec![], room));
        assert!(builder.finish().is_err());
    }
    let builder = HttpBuilder::from_buffer(Sink::with_limit(vec![], 2));
    assert_eq!(builder.finish().unwrap().into_inner(), b"\r\n");
}

#[test]
fn builder_goes_on_after_a_header_that_did_not_fit() {
    let mut builder = HttpBuilder::from_buffer(Sink::with_limit(vec![], 8));
    assert!(builder.header(Header::new("Long-Name", 1u8)).is_err());
    let sink = builder.into_inner();
    assert_eq!(sink.as_bytes(), b"");
    assert_eq!(sink.remaining_mut(), 8);
}

#[test]
fn put_uint_writes_the_low_bytes_most_significant_first() {
    let mut sink = Sink::new(vec![]);
    sink.try_put_uint(0x010203, 3).unwrap();
    assert_eq!(sink.as_bytes(), b"\x01\x02\x03");
    sink.try_put_uint(0x0102030405060708, 8).unwrap();
    sink.try_put_uint(0x0102030405060708, 1).unwrap();
    sink.try_put_uint(0x0102030405060708, 0).unwrap();
    assert_eq!(
        sink.into_inner(),
        b"\x01\x02\x03\x01\x02\x03\x04\x05\x06\x07\x08\x08"
    );
}

#[test]
fn put_uint_le_writes_the_low_bytes_least_significant_first() {
    let mut sink = Sink::new(vec![]);
    sink.try_put_uint_le(0x010203, 3).unwrap();
    assert_eq!(sink.as_bytes(), b"\x03\x02\x01");
    sink.try_put_uint_le(0x0102030405060708, 8).unwrap();
    sink.try_put_uint_le(0x0102030405060708, 2).unwrap();
    assert_eq!(
        sink.into_inner(),
        b"\x03\x02\x01\x08\x07\x06\x05\x04\x03\x02\x01\x08\x07"
    );
}

#[test]
fn put_int_writes_twos_complement() {
    let mut sink = Sink::new(vec![]);
    sink.try_put_int(0x0504010203, 3).unwrap();
    assert_eq!(sink.as_bytes(), b"\x01\x02\x03");
    sink.try_put_int(-2, 2).unwrap();
    sink.try_put_int(-1, 8).unwrap();
    sink.try_put_int(i64::MIN, 8).unwrap();
    assert_eq!(
        sink.into_inner(),
        b"\x01\x02\x03\xff\xfe\xff\xff\xff\xff\xff\xff\xff\xff\x80\x00\x00\x00\x00\x00\x00\x00"
    );
}

#[test]
fn put_int_le_writes_twos_complement() {
    let mut sink = Sink::new(vec![]);
    sink.try_put_int_le(0x0504010203, 3).unwrap();
    assert_eq!(sink.as_bytes(), b"\x03\x02\x01");
    sink.try_put_int_le(-2, 2).unwrap();
    sink.try_put_int_le(i64::MIN, 8).unwrap();
    assert_eq!(
        sink.into_inner(),
        b"\x03\x02\x01\xfe\xff\x00\x00\x00\x00\x00\x00\x00\x80"
    );
}

#[test]
fn integers_that_do_not_fit_write_nothing() {
    let mut sink = Sink::with_limit(b"x".to_vec(), 2);
    assert!(sink.try_put_uint(1, 3).is_err());
    assert!(sink.try_put_uint_le(1, 3).is_err());
    assert!(sink.try_put_int(-1, 3).is_err());
    assert!(sink.try_put_int_le(-1, 3).is_err());
    assert_eq!(sink.as_bytes(), b"x");
    assert_eq!(sink.remaining_mut(), 2);
    assert!(sink.try_put_uint(0xabcd, 2).is_ok());
    assert_eq!(sink.remaining_mut(), 0);
    assert_eq!(sink.into_inner(), b"x\xab\xcd");
}
