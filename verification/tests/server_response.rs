use rouille::content_encoding::apply;
use rouille::decimal::push_decimal;
use rouille::server::{
    after_accept, after_handler_update, after_write, record_read, record_write, AcceptOutcome, Interest, IoAction,
    ReadOutcome, WriteOutcome,
};
use rouille::socket_handler::{RegistrationState, UpdateResult};
use rouille::{Request, Response};

#[test]
fn reads_fill_the_buffer() {
    let mut buffer = b"ab".to_vec();
    assert_eq!(record_read(&mut buffer, b"cdef", ReadOutcome::Data(3)), IoAction::Continue);
    assert_eq!(buffer, b"abcde".to_vec());
    assert_eq!(record_read(&mut buffer, b"", ReadOutcome::Data(0)), IoAction::Stop);
    assert_eq!(record_read(&mut buffer, b"", ReadOutcome::Interrupted), IoAction::Continue);
    assert_eq!(record_read(&mut buffer, b"", ReadOutcome::WouldBlock), IoAction::Stop);
    assert_eq!(record_read(&mut buffer, b"", ReadOutcome::Failed), IoAction::Drop);
    assert_eq!(buffer, b"abcde".to_vec());
}

#[test]
fn writes_drain_the_buffer() {
    let mut buffer = b"hello".to_vec();
    assert_eq!(record_write(&mut buffer, WriteOutcome::Written(2)), IoAction::Continue);
    assert_eq!(buffer, b"llo".to_vec());
    assert_eq!(record_write(&mut buffer, WriteOutcome::Written(0)), IoAction::Stop);
    assert_eq!(record_write(&mut buffer, WriteOutcome::WouldBlock), IoAction::Stop);
    assert_eq!(record_write(&mut buffer, WriteOutcome::Failed), IoAction::Drop);
    assert_eq!(record_write(&mut buffer, WriteOutcome::Written(3)), IoAction::Stop);
    assert!(buffer.is_empty());
}

#[test]
fn streams_are_registered_again_or_dropped() {
    let result = UpdateResult { registration: None, close_read: true, write_flush_suggested: false };
    let r = after_handler_update(false, false, &result, false);
    assert!(r.read_closed);
    assert!(!r.keep);
    assert_eq!(r.stream, None);

    let r = after_handler_update(false, false, &result, true);
    assert!(r.keep);
    assert_eq!(r.stream, Some(Interest { readable: false, writable: true }));

    let result = UpdateResult {
        registration: Some(RegistrationState::FirstTime),
        close_read: false,
        write_flush_suggested: true,
    };
    let r = after_handler_update(false, false, &result, false);
    assert!(r.keep && r.write_flush_suggested);
    assert_eq!(r.registration, Some(RegistrationState::FirstTime));
    assert_eq!(r.stream, Some(Interest { readable: true, writable: false }));

    assert_eq!(after_write(true, false), None);
    assert_eq!(after_write(false, true), Some(Interest { readable: true, writable: true }));
    assert_eq!(after_accept(AcceptOutcome::Accepted), IoAction::Continue);
    assert_eq!(after_accept(AcceptOutcome::WouldBlock), IoAction::Stop);
    assert_eq!(after_accept(AcceptOutcome::Failed), IoAction::Drop);
}

#[test]
fn decimals_are_written() {
    let mut out = Vec::new();
    push_decimal(&mut out, 0);
    out.push(b' ');
    push_decimal(&mut out, 18446744073709551615);
    assert_eq!(String::from_utf8(out).unwrap(), "0 18446744073709551615");
}

#[test]
fn etags() {
    let request = Request::fake_http("GET", "/", vec![("If-None-Match".to_owned(), "abc".to_owned())], vec![]);
    let response = Response::text("hello").with_etag(&request, "abc");
    assert_eq!(response.status_code, 304);
    assert_eq!(response.data.into_inner().0.len(), 0);

    let response = Response::text("hello").with_etag(&request, "other");
    assert_eq!(response.status_code, 200);
    assert_eq!(response.headers.last().unwrap(), &("ETag".to_owned(), "other".to_owned()));

    let once = Response::text("x").with_etag_keep("e1");
    let twice = Response::text("x").with_etag_keep("e1").with_etag_keep("e1");
    assert_eq!(once.headers, twice.headers);
    let replaced = once.with_etag_keep("e2");
    assert_eq!(replaced.headers.len(), 2);
    assert_eq!(replaced.headers[1], ("ETag".to_owned(), "e2".to_owned()));

    let error = Response::empty_404().with_etag(&request, "abc");
    assert_eq!(error.status_code, 404);
    assert!(error.is_error() && !error.is_success());
}

#[test]
fn gzip_is_applied_to_text() {
    let request = Request::fake_http("GET", "/", vec![("Accept-Encoding".to_owned(), "foo, gzip".to_owned())], vec![]);
    let response = apply(&request, Response::text("hello hello hello hello"));
    assert_eq!(response.headers.last().unwrap(), &("Content-Encoding".to_owned(), "gzip".to_owned()));
    let (data, len) = response.data.into_inner();
    assert_eq!(&data[..2], &[0x1f, 0x8b]);
    assert_eq!(len, Some(data.len()));
}

#[test]
fn brotli_is_applied_to_text() {
    let request = Request::fake_http("GET", "/", vec![("Accept-Encoding".to_owned(), "br".to_owned())], vec![]);
    let response = apply(&request, Response::text("hello hello hello hello"));
    assert_eq!(response.headers.last().unwrap(), &("Content-Encoding".to_owned(), "br".to_owned()));
    let (data, len) = response.data.into_inner();
    assert!(!data.is_empty());
    assert_ne!(data, b"hello hello hello hello".to_vec());
    assert_eq!(len, None);
}

#[test]
fn encoding_not_applied_to_binary() {
    let request = Request::fake_http("GET", "/", vec![("Accept-Encoding".to_owned(), "gzip".to_owned())], vec![]);
    let mut response = Response::text("x");
    response.headers[0].1 = "image/png".to_owned();
    let response = apply(&request, response);
    assert_eq!(response.headers.len(), 1);
    assert_eq!(response.data.into_inner().0, b"x".to_vec());
}

#[test]
fn encoding_is_applied_once() {
    let request = Request::fake_http("GET", "/", vec![("Accept-Encoding".to_owned(), "gzip".to_owned())], vec![]);
    let once = apply(&request, Response::text("hello hello hello hello"));
    let headers = once.headers.clone();
    let (data, _) = once.data.into_inner();
    let mut again = Response::text("unused");
    again.headers = headers.clone();
    again.data = rouille::ResponseBody::from_data(data.clone());
    let twice = apply(&request, again);
    assert_eq!(twice.headers, headers);
    assert_eq!(twice.data.into_inner().0, data);
}
