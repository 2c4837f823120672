use rouille::content_encoding;
use rouille::Request;

#[test]
fn no_req_encodings() {
    let request = Request::fake_http("GET", "/", vec![], vec![]);
    assert_eq!(content_encoding::accepted_content_encodings(&request).count(), 0);
}

#[test]
fn empty_req_encodings() {
    let request = {
        let h = vec![("Accept-Encoding".to_owned(), "".to_owned())];
        Request::fake_http("GET", "/", h, vec![])
    };

    assert_eq!(content_encoding::accepted_content_encodings(&request).count(), 0);
}

#[test]
fn one_req_encoding() {
    let request = {
        let h = vec![("Accept-Encoding".to_owned(), "foo".to_owned())];
        Request::fake_http("GET", "/", h, vec![])
    };

    let mut list = content_encoding::accepted_content_encodings(&request);
    assert_eq!(list.next().unwrap(), "foo");
    assert_eq!(list.next(), None);
}

#[test]
fn multi_req_encoding() {
    let request = {
        let h = vec![("Accept-Encoding".to_owned(), "foo, bar".to_owned())];
        Request::fake_http("GET", "/", h, vec![])
    };

    let mut list = content_encoding::accepted_content_encodings(&request);
    assert_eq!(list.next().unwrap(), "foo");
    assert_eq!(list.next().unwrap(), "bar");
    assert_eq!(list.next(), None);
}
