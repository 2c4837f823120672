use rouille::input::basic_http_auth::{basic_http_auth, HttpAuthCredentials as AuthCredentials};
use rouille::input::cookies::cookies;
use rouille::input::plain::{plain_text_body, PlainTextError};
use rouille::input::{get_basic_http_auth, get_cookies, HttpAuthCredentials};
use rouille::Request;

#[test]
fn basic_http_auth_basic_http_auth_no_header() {
    let request = Request::fake_http("GET", "/", vec![], Vec::new());
    assert_eq!(basic_http_auth(&request), None);
}

#[test]
fn basic_http_auth_basic_http_auth_wrong_header() {
    let request = Request::fake_http(
        "GET",
        "/",
        vec![("Authorization".to_owned(), "hello world".to_owned())],
        Vec::new(),
    );
    assert_eq!(basic_http_auth(&request), None);

    let request = Request::fake_http(
        "GET",
        "/",
        vec![("Authorization".to_owned(), "Basic \0\0".to_owned())],
        Vec::new(),
    );
    assert_eq!(basic_http_auth(&request), None);
}

#[test]
fn basic_http_auth_basic_http_auth_ok() {
    let request = Request::fake_http(
        "GET",
        "/",
        vec![("Authorization".to_owned(), "Basic QWxhZGRpbjpvcGVuIHNlc2FtZQ==".to_owned())],
        Vec::new(),
    );

    assert_eq!(
        basic_http_auth(&request),
        Some(AuthCredentials { login: "Aladdin".to_owned(), password: "open sesame".to_owned() })
    );
}

#[test]
fn cookies_cookies_ok() {
    let request = Request::fake_http(
        "GET",
        "/",
        vec![("Cookie".to_owned(), "a=b; hello=world".to_owned())],
        Vec::new(),
    );

    assert_eq!(
        cookies(&request),
        vec![("a".to_owned(), "b".to_owned()), ("hello".to_owned(), "world".to_owned())]
    );
}

#[test]
fn mod_basic_http_auth_no_header() {
    let request = Request::fake_http("GET", "/", vec![], Vec::new());
    assert_eq!(get_basic_http_auth(&request), None);
}

#[test]
fn mod_basic_http_auth_wrong_header() {
    let request = Request::fake_http(
        "GET",
        "/",
        vec![("Authorization".to_owned(), "hello world".to_owned())],
        Vec::new(),
    );
    assert_eq!(get_basic_http_auth(&request), None);

    let request = Request::fake_http(
        "GET",
        "/",
        vec![("Authorization".to_owned(), "Basic \0\0".to_owned())],
        Vec::new(),
    );
    assert_eq!(get_basic_http_auth(&request), None);
}

#[test]
fn mod_basic_http_auth_ok() {
    let request = Request::fake_http(
        "GET",
        "/",
        vec![("Authorization".to_owned(), "Basic QWxhZGRpbjpvcGVuIHNlc2FtZQ==".to_owned())],
        Vec::new(),
    );

    assert_eq!(
        get_basic_http_auth(&request),
        Some(HttpAuthCredentials { login: "Aladdin".to_owned(), password: "open sesame".to_owned() })
    );
}

#[test]
fn mod_cookies_ok() {
    let request = Request::fake_http(
        "GET",
        "/",
        vec![("Cookie".to_owned(), "a=b; hello=world".to_owned())],
        Vec::new(),
    );

    assert_eq!(
        get_cookies(&request),
        vec![("a".to_owned(), "b".to_owned()), ("hello".to_owned(), "world".to_owned())]
    );
}

#[test]
fn ok_content_type() {
    let mut request = Request::fake_http(
        "GET",
        "/",
        vec![("Content-Type".to_owned(), "text/plain".to_owned())],
        b"test".to_vec(),
    );

    match plain_text_body(&mut request) {
        Ok(ref d) if d == "test" => (),
        _ => panic!(),
    }
}

#[test]
fn missing_content_type() {
    let mut request = Request::fake_http("GET", "/", vec![], Vec::new());

    match plain_text_body(&mut request) {
        Err(PlainTextError::WrongContentType) => (),
        _ => panic!(),
    }
}

#[test]
fn wrong_content_type() {
    let mut request = Request::fake_http(
        "GET",
        "/",
        vec![("Content-Type".to_owned(), "text/html".to_owned())],
        b"test".to_vec(),
    );

    match plain_text_body(&mut request) {
        Err(PlainTextError::WrongContentType) => (),
        _ => panic!(),
    }
}

#[test]
fn plain_text_body_already_extracted() {
    let mut request = Request::fake_http(
        "GET",
        "/",
        vec![("Content-Type".to_owned(), "text/plain".to_owned())],
        b"test".to_vec(),
    );
    assert!(request.data().is_some());
    match plain_text_body(&mut request) {
        Err(PlainTextError::BodyAlreadyExtracted) => (),
        _ => panic!(),
    }
}
