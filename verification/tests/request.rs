use rouille::Request;

#[test]
fn header() {
    let request = Request::fake_http("GET", "/", vec![("Host".to_owned(), "localhost".to_owned())], vec![]);
    assert_eq!(request.header("Host"), Some("localhost"));
    assert_eq!(request.header("host"), Some("localhost"));
}

#[test]
fn get_param() {
    let request = Request::fake_http("GET", "/?p=hello", vec![], vec![]);
    assert_eq!(request.get_param("p"), Some("hello".to_owned()));
}

#[test]
fn body_twice() {
    let mut request = Request::fake_http("GET", "/", vec![], vec![62, 62, 62]);
    assert!(request.data().is_some());
    assert!(request.data().is_none());
}

#[test]
fn url_strips_get_query() {
    let request = Request::fake_http("GET", "/?p=hello", vec![], vec![]);
    assert_eq!(request.url(), "/");
}

#[test]
fn urlencode_query_string() {
    let request = Request::fake_http("GET", "/?p=hello%20world", vec![], vec![]);
    assert_eq!(request.get_param("p"), Some("hello world".to_owned()));
}

#[test]
fn plus_in_query_string() {
    let request = Request::fake_http("GET", "/?p=hello+world", vec![], vec![]);
    assert_eq!(request.get_param("p"), Some("hello world".to_owned()));
}

#[test]
fn encoded_plus_in_query_string() {
    let request = Request::fake_http("GET", "/?p=hello%2Bworld", vec![], vec![]);
    assert_eq!(request.get_param("p"), Some("hello+world".to_owned()));
}

#[test]
fn url_encode() {
    let request = Request::fake_http("GET", "/hello%20world", vec![], vec![]);
    assert_eq!(request.url(), "/hello world");
}

#[test]
fn plus_in_url() {
    let request = Request::fake_http("GET", "/hello+world", vec![], vec![]);
    assert_eq!(request.url(), "/hello+world");
}

#[test]
fn dnt() {
    let request = Request::fake_http("GET", "/", vec![("DNT".to_owned(), "1".to_owned())], vec![]);
    assert_eq!(request.do_not_track(), Some(true));

    let request = Request::fake_http("GET", "/", vec![("DNT".to_owned(), "0".to_owned())], vec![]);
    assert_eq!(request.do_not_track(), Some(false));

    let request = Request::fake_http("GET", "/", vec![], vec![]);
    assert_eq!(request.do_not_track(), None);

    let request = Request::fake_http("GET", "/", vec![("DNT".to_owned(), "malformed".to_owned())], vec![]);
    assert_eq!(request.do_not_track(), None);
}

#[test]
fn remove_prefix_leaves_the_request() {
    let mut request = Request::fake_http("GET", "/static/a.css?x=1", vec![], b"body".to_vec());
    let mut inner = request.remove_prefix("/static").unwrap();
    assert_eq!(inner.raw_url(), "/a.css?x=1");
    assert_eq!(request.raw_url(), "/static/a.css?x=1");
    let mut out = Vec::new();
    inner.data().unwrap().read_to_end(&mut out);
    assert_eq!(out, b"body".to_vec());
    assert!(request.data().is_some());
    assert!(request.remove_prefix("/other").is_none());
}
