use rouille::input::json::rustc_serialize::{json_input_text, JsonError as RustcJsonError};
use rouille::input::json::{get_json_text, JsonError};
use rouille::input::multipart::{get_multipart_input, multipart_boundary, MultipartError};
use rouille::input::plain::{plain_text_body, PlainTextError};
use rouille::input::post::{get_raw_post_input, PostDecoder, PostError};
use rouille::Request;

fn with_type(content_type: &str, body: &[u8]) -> Request {
    Request::fake_http("POST", "/", vec![("Content-Type".to_owned(), content_type.to_owned())], body.to_vec())
}

#[test]
fn plain_text_not_utf8() {
    let mut request = with_type("text/plain; charset=utf8", &[0xff, 0xfe]);
    assert!(matches!(plain_text_body(&mut request), Err(PlainTextError::IoError(_))));
    assert!(!request.has_data());
}

#[test]
fn json_text_checks() {
    let mut request = with_type("application/json", b"{\"a\":1}");
    assert_eq!(get_json_text(&mut request).unwrap(), "{\"a\":1}");

    let mut request = with_type("text/json", b"{}");
    assert!(matches!(get_json_text(&mut request), Err(JsonError::WrongContentType)));
    assert!(request.has_data());

    let mut request = with_type("application/json; charset=utf-8", &[0xc3]);
    assert!(matches!(get_json_text(&mut request), Err(JsonError::NotUtf8(_))));
}

#[test]
fn rustc_json_text_checks() {
    let mut request = with_type("application/json", b"[1, 2]");
    assert_eq!(json_input_text(&mut request).unwrap(), "[1, 2]");
    assert!(matches!(json_input_text(&mut request), Err(RustcJsonError::BodyAlreadyExtracted)));

    let mut request = Request::fake_http("POST", "/", vec![], vec![]);
    let err = json_input_text(&mut request).err().unwrap();
    assert!(matches!(err, RustcJsonError::WrongContentType));
    assert_eq!(err.description(), "the request didn't have a JSON content type");
    assert!(err.cause().is_none());

    let mut request = with_type("application/json", &[0xff]);
    let err = json_input_text(&mut request).err().unwrap();
    assert!(matches!(err, RustcJsonError::IoError(_)));
    assert!(err.cause().is_some());
}

#[test]
fn raw_post_input() {
    let mut request = with_type("application/x-www-form-urlencoded", b"a=1&b=hello+world&&c=%26&d");
    let fields = get_raw_post_input(&mut request).unwrap();
    assert_eq!(
        fields,
        vec![
            ("a".to_owned(), "1".to_owned()),
            ("b".to_owned(), "hello world".to_owned()),
            ("c".to_owned(), "&".to_owned()),
            ("d".to_owned(), "".to_owned()),
        ]
    );
    assert!(matches!(get_raw_post_input(&mut request), Err(PostError::BodyAlreadyExtracted)));

    let mut request = with_type("application/x-www-form-urlencoded; charset=utf8", b"a=1");
    assert!(matches!(get_raw_post_input(&mut request), Err(PostError::WrongContentType)));
}

#[test]
fn post_decoder_reads_fields() {
    let fields = vec![("x".to_owned(), "1".to_owned()), ("x".to_owned(), "2".to_owned())];
    let mut start = PostDecoder::Start(fields);
    let mut members = start.read_struct();
    assert!(matches!(start, PostDecoder::Empty));
    let field = members.read_struct_field("x");
    assert!(field.has_field());
    assert_eq!(field.read_str().unwrap(), "1");
    members.end_struct_field(field);
    let missing = members.read_struct_field("y");
    assert!(!missing.has_field());
    match missing.read_str() {
        Err(PostError::MissingField(name)) => assert_eq!(name, "y"),
        _ => panic!(),
    }
}

#[test]
fn multipart_boundaries() {
    let request = with_type("multipart/form-data; boundary=abc; charset=x", b"");
    assert_eq!(multipart_boundary(&request), Some("abc".to_owned()));
    let request = with_type("multipart/form-data; boundary=xyz", b"");
    assert_eq!(multipart_boundary(&request), Some("xyz".to_owned()));
    let request = with_type("multipart/form-data", b"");
    assert_eq!(multipart_boundary(&request), None);
}

#[test]
fn multipart_fields() {
    let body = b"--XX\r\nContent-Disposition: form-data; name=\"field\"\r\n\r\nvalue\r\n--XX--\r\n";
    let mut request = with_type("multipart/form-data; boundary=XX", body);
    let mut multipart = get_multipart_input(&mut request).ok().unwrap();
    let field = multipart.next().unwrap();
    assert_eq!(field.name, "field");
    assert_eq!(field.data, b"value".to_vec());
    assert!(multipart.next().is_none());
    assert_eq!(get_multipart_input(&mut request).err(), Some(MultipartError::BodyAlreadyExtracted));

    let mut request = with_type("text/plain", b"");
    assert_eq!(get_multipart_input(&mut request).err(), Some(MultipartError::WrongContentType));
}

#[test]
fn multipart_fields_in_order() {
    let body = b"--XX\r\nContent-Disposition: form-data; name=\"a\"\r\n\r\none\r\n--XX\r\nContent-Disposition: form-data; name=\"b\"; filename=\"f.txt\"\r\nContent-Type: text/plain\r\n\r\ntwo\r\n--XX--\r\n";
    let mut request = with_type("multipart/form-data; boundary=XX", body);
    let mut multipart = get_multipart_input(&mut request).ok().unwrap();
    let first = multipart.next().unwrap();
    assert_eq!((first.name.as_str(), first.data.as_slice()), ("a", &b"one"[..]));
    assert_eq!(first.filename, None);
    let second = multipart.next().unwrap();
    assert_eq!((second.name.as_str(), second.data.as_slice()), ("b", &b"two"[..]));
    assert_eq!(second.filename, Some("f.txt".to_owned()));
    assert_eq!(second.content_type, Some("text/plain".to_owned()));
    assert!(multipart.next().is_none());
}
