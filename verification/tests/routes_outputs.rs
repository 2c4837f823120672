use rouille::route::{method_label, uri_label};
use rouille::output::{JsonOutput, NoOutput, PlainTextOutput, RedirectOutput, TemplateOutput};
use rouille::route::{Method, MethodsMask, Params, Pattern, RequestUri, Route, Segment};

fn pattern() -> Pattern {
    Pattern(vec![Segment::Literal("users".to_owned()), Segment::Param("id".to_owned())])
}

#[test]
fn pattern_matches_paths() {
    assert_eq!(pattern().parse("/users/42"), Ok(vec![("id".to_owned(), "42".to_owned())]));
    assert_eq!(pattern().parse("/users/42//"), Ok(vec![("id".to_owned(), "42".to_owned())]));
    assert_eq!(pattern().parse("/users/42/x"), Err(()));
    assert_eq!(pattern().parse("/user/42"), Err(()));
    assert_eq!(pattern().parse("/users"), Err(()));
    assert_eq!(Pattern(vec![]).parse("/"), Ok(vec![]));
}

#[test]
fn methods_and_routes() {
    let mask = MethodsMask::parse("POST");
    assert_eq!(mask, MethodsMask { get: true, post: false, put: false, delete: false });
    assert!(mask.matches(&Method::Get));
    assert!(!mask.matches(&Method::Post));
    assert!(!mask.matches(&Method::Extension("PURGE".to_owned())));

    let route = Route { url: pattern(), method: mask, handler: () };
    assert_eq!(
        route.matches(&Method::Get, &RequestUri::AbsolutePath("/users/7".to_owned())),
        Ok(vec![("id".to_owned(), "7".to_owned())])
    );
    assert_eq!(route.matches(&Method::Post, &RequestUri::AbsolutePath("/users/7".to_owned())), Err(()));
    assert_eq!(route.matches(&Method::Get, &RequestUri::Star), Err(()));
}

#[test]
fn params_give_access() {
    let value = 3u8;
    let params = Params(&value);
    assert_eq!(*params.get(), 3);
}

#[test]
fn outputs_hold_what_they_were_given() {
    assert_eq!(JsonOutput::new(vec![1, 2]).data, vec![1, 2]);
    assert_eq!(PlainTextOutput::new("hello world").data, "hello world");
    let redirect = RedirectOutput::new("/hello", 302);
    assert_eq!((redirect.location.as_str(), redirect.status_code), ("/hello", 302));
    let template = TemplateOutput::new("index", 5);
    assert_eq!((template.template_name.as_str(), template.data), ("index", 5));
    assert_eq!(NoOutput::IgnoreRoute, NoOutput::IgnoreRoute);
}

#[test]
fn log_labels() {
    assert_eq!(method_label(&Method::Get), "GET");
    assert_eq!(method_label(&Method::Extension("PURGE".to_owned())), "PURGE (custom)");
    assert_eq!(uri_label(&RequestUri::AbsolutePath("/a".to_owned())), "/a");
    assert_eq!(uri_label(&RequestUri::Star), "*");
}
