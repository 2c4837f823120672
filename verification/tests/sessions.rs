use rouille::input::session::{generate_session_id, session_id_from, SessionsManager};
use rouille::session::{finish_session, session, start_session};
use rouille::{Request, Response};

fn with_cookie(cookie: &str) -> Request {
    Request::fake_http("GET", "/", vec![("Cookie".to_owned(), cookie.to_owned())], vec![])
}

#[test]
fn session_ids_are_alphanumeric() {
    let id = generate_session_id().unwrap();
    assert_eq!(id.len(), 64);
    assert!(id.chars().all(|c| c.is_ascii_alphanumeric()));
    assert_ne!(id, generate_session_id().unwrap());
}

#[test]
fn sessions_manager_stores_data() {
    let mut manager = SessionsManager::<u32>::new("SID", 3600);
    let request = with_cookie("SID=abc; other=1");
    let session = manager.start(&request).unwrap();
    assert!(!session.has_data(&manager));
    assert_eq!(session.get(&manager), None);
    session.set(&mut manager, 5);
    assert!(session.has_data(&manager));
    assert_eq!(session.get(&manager), Some(5));
    session.set(&mut manager, 7);
    assert_eq!(session.get(&manager), Some(7));

    let other = manager.start(&with_cookie("SID=def")).unwrap();
    assert_eq!(other.get(&manager), None);
    other.set(&mut manager, 1);
    assert_eq!(session.get(&manager), Some(7));

    let response = session.apply(&manager, Response::text("x"));
    assert_eq!(response.headers.last().unwrap(), &("Set-Cookie".to_owned(), "SID=abc; Max-Age=3600".to_owned()));

    session.clear(&mut manager);
    assert!(!session.has_data(&manager));
    assert_eq!(other.get(&manager), Some(1));
    let response = session.apply(&manager, Response::text("x"));
    assert_eq!(response.headers.len(), 1);
}

#[test]
fn new_session_without_cookie() {
    let manager = SessionsManager::<u32>::new("SID", 60);
    let session = manager.start(&Request::fake_http("GET", "/", vec![], vec![])).unwrap();
    assert!(!session.has_data(&manager));
}

#[test]
fn session_cookie_when_id_is_read() {
    let request = with_cookie("SID=given");
    let response = session(&request, "SID", 60, |s| {
        assert!(s.client_has_sid());
        let id = s.id().to_owned();
        Response::text(&id)
    })
    .unwrap();
    assert_eq!(
        response.headers.last().unwrap().1,
        "SID=given; Path=/; Max-Age=60; Secure; HttpOnly"
    );

    let response = session(&request, "SID", 60, |s| {
        assert!(s.client_has_sid());
        Response::text("no id")
    })
    .unwrap();
    assert_eq!(response.headers.len(), 1);
}

#[test]
fn session_started_without_cookie() {
    let request = Request::fake_http("GET", "/", vec![], vec![]);
    let mut s = start_session(&request, "SID").unwrap();
    assert!(!s.client_has_sid());
    assert_eq!(s.id().len(), 64);
    let response = finish_session(&s, "SID", 10, Response::empty_404());
    assert_eq!(response.status_code, 404);
    assert!(response.headers[0].1.ends_with("; Path=/; Max-Age=10; Secure; HttpOnly"));
}

#[test]
fn session_ids_from_an_opened_source() {
    let mut rng = rand::OsRng::new().unwrap();
    let a = session_id_from(&mut rng);
    let b = session_id_from(&mut rng);
    assert_eq!(a.len(), 64);
    assert!(a.chars().all(|c| c.is_ascii_alphanumeric()));
    assert_ne!(a, b);
}

#[test]
fn session_ids_keep_letters_and_digits() {
    let drawn = vec!['a', '-', 'B', ' ', '7'];
    assert_eq!(rouille::input::session::session_id_of(&drawn), "aB7");
}

#[test]
fn same_cookie_same_session() {
    let mut manager: SessionsManager<String> = SessionsManager::new("SID", 3600);
    let cookie = vec![("Cookie".to_owned(), "SID=abc; other=1".to_owned())];
    let first = Request::fake_http("GET", "/", cookie.clone(), vec![]);
    let second = Request::fake_http("GET", "/other", cookie, vec![]);
    let s1 = manager.start(&first).unwrap();
    s1.set(&mut manager, "hello".to_owned());
    let s2 = manager.start(&second).unwrap();
    assert_eq!(s2.get(&manager), Some("hello".to_owned()));
    assert!(s2.has_data(&manager));
}

#[test]
fn session_id_reads_are_stable() {
    let request = Request::fake_http("GET", "/", vec![("Cookie".to_owned(), "SID=xyz".to_owned())], vec![]);
    let response = session(&request, "SID", 60, |s| {
        let a = s.id().to_owned();
        let b = s.id().to_owned();
        assert_eq!(a, b);
        assert_eq!(a, "xyz");
        Response::text("ok")
    });
    assert!(response.is_some());
}
