//! Sessions handling.
//!
//! The main feature of this module is the `session` function which handles a session. This
//! function guarantees that a single unique identifier is assigned to each client. This
//! identifier is accessible through the parameter passed to the inner closure.

use vstd::prelude::*;
use crate::input::session::{find_cookie, cookie_value, is_session_id};
use crate::input::cookies::request_cookies;
use crate::request::Request;
use crate::response::Response;
use crate::text::{push_str_to, string_of};

verus! {

/// Contains the ID of the session.
pub struct Session {
    key_was_retreived: bool,
    key_was_given: bool,
    key: String,
}

/// The abstract content of a `Session`.
pub struct SessionView {
    /// The identifier was read by the handler.
    pub key_was_retreived: bool,
    /// The identifier came from the client's cookie.
    pub key_was_given: bool,
    /// The identifier.
    pub key: Seq<char>,
}

impl View for Session {
    type V = SessionView;

    closed spec fn view(&self) -> SessionView {
        SessionView {
            key_was_retreived: self.key_was_retreived,
            key_was_given: self.key_was_given,
            key: self.key@,
        }
    }
}

/// `r` is what reading the identifier of the session `before` gives, and `after` is the session
/// then: the identifier, unchanged, marked as read.
pub open spec fn reads_id(before: Session, after: Session, r: Seq<char>) -> bool {
    &&& r == before@.key
    &&& after@.key == before@.key
    &&& after@.key_was_given == before@.key_was_given
    &&& after@.key_was_retreived
}

/// Reading the identifier again gives the same string: every read of a session's identifier
/// gives the key it started with.
pub proof fn lemma_id_is_stable(s0: Session, s1: Session, s2: Session, r1: Seq<char>, r2: Seq<char>)
    requires
        reads_id(s0, s1, r1),
        reads_id(s1, s2, r2),
    ensures
        r1 == r2,
        r2 == s0@.key,
        s2@.key_was_given == s0@.key_was_given,
{
}

impl Session {
    /// Returns true if the client gave us a session ID.
    ///
    /// If this returns false, then we are sure that no data is available.
    pub fn client_has_sid(&self) -> (b: bool)
        ensures
            b == self@.key_was_given,
    {
        self.key_was_given
    }

    /// Returns the id of the session. Reading it is what makes `session` send the cookie that
    /// keeps the session.
    pub fn id(&mut self) -> (r: &str)
        ensures
            reads_id(*old(self), *final(self), r@),
    {
        self.key_was_retreived = true;
        self.key.as_str()
    }
}

/// Generates a string suitable for a session ID: 64 ASCII letters and digits.
///
/// The output string doesn't contain any punctuation or character such as quotes or brackets
/// that could need to be escaped. Returns `None` if the operating system's source of randomness
/// cannot be opened.
pub fn generate_session_id() -> (r: Option<String>)
    ensures
        r matches Some(s) ==> is_session_id(s@),
{
    crate::input::session::generate_session_id()
}

/// The `Set-Cookie` value that keeps a session: the identifier under the cookie's name, for the
/// whole site, for `timeout_s` seconds, over secure connections only and out of reach of
/// scripts.
pub open spec fn session_cookie(name: Seq<char>, key: Seq<char>, timeout_s: u64) -> Seq<char> {
    name + "="@ + key + "; Path=/; Max-Age="@ + crate::decimal::decimal_chars(timeout_s as nat)
        + "; Secure; HttpOnly"@
}

/// A session as `session` starts it: the one the client's cookie names, or a fresh identifier
/// when it names none; the handler has not read it yet.
pub open spec fn starts_session(cookie: Option<Seq<char>>, s: SessionView) -> bool {
    &&& !s.key_was_retreived
    &&& match cookie {
        Some(v) => s.key_was_given && s.key == v,
        None => !s.key_was_given && is_session_id(s.key),
    }
}

/// `r` is `response` as `finish_session` leaves it: unchanged if the handler did not read the
/// identifier, else with the `Set-Cookie` header that keeps the session added at the end.
pub open spec fn finishes_session(
    session: SessionView,
    cookie_name: Seq<char>,
    timeout_s: u64,
    response: Response,
    r: Response,
) -> bool {
    &&& !session.key_was_retreived ==> r == response
    &&& session.key_was_retreived ==> {
        &&& r.status_code == response.status_code
        &&& r.data == response.data
        &&& r.upgrade == response.upgrade
        &&& r.headers@.len() == response.headers@.len() + 1
        &&& r.headers@.take(response.headers@.len() as int) == response.headers@
        &&& r.headers@.last().0@ == "Set-Cookie"@
        &&& r.headers@.last().1@ == session_cookie(cookie_name, session.key, timeout_s)
    }
}

/// Finds the session of the client from its cookie named `cookie_name`, or starts a new one.
/// Returns `None` if a new identifier was needed and the operating system's source of
/// randomness could not be opened.
pub fn start_session(request: &Request, cookie_name: &str) -> (s: Option<Session>)
    ensures
        cookie_value(request_cookies(request@.headers), cookie_name@) is Some ==> s is Some,
        s matches Some(sess) ==> starts_session(
            cookie_value(request_cookies(request@.headers), cookie_name@),
            sess@,
        ),
{
    match find_cookie(request, cookie_name) {
        Some(key) => Some(Session { key_was_retreived: false, key_was_given: true, key }),
        None => match generate_session_id() {
            Some(key) => Some(Session { key_was_retreived: false, key_was_given: false, key }),
            None => None,
        },
    }
}

/// Ends the handling of a session: if the handler read the identifier, the response gets the
/// cookie that keeps the session; otherwise it is left as it is.
pub fn finish_session(session: &Session, cookie_name: &str, timeout_s: u64, response: Response) -> (r: Response)
    ensures
        finishes_session(session@, cookie_name@, timeout_s, response, r),
{
    if !session.key_was_retreived {
        return response;
    }
    let mut value = string_of(cookie_name);
    push_str_to(&mut value, "=");
    push_str_to(&mut value, session.key.as_str());
    push_str_to(&mut value, "; Path=/; Max-Age=");
    crate::decimal::push_decimal_chars(&mut value, timeout_s);
    push_str_to(&mut value, "; Secure; HttpOnly");
    let mut response = response;
    let ghost before = response.headers@;
    response.headers.push((string_of("Set-Cookie"), value));
    assert(response.headers@.take(before.len() as int) == before);
    response
}

/// Handles a session: finds the session of the client from its cookie named `cookie_name`, or
/// starts a new one, and lets `inner` answer the request with it. If `inner` read the session
/// identifier, the response gets the cookie that keeps the session for `timeout_s` seconds.
///
/// Returns `None`, without calling `inner`, if a new identifier was needed and the operating
/// system's source of randomness could not be opened.
pub fn session<F>(request: &Request, cookie_name: &str, timeout_s: u64, inner: F) -> (r: Option<
    Response,
>) where F: FnOnce(&mut Session) -> Response
    requires
        forall|s: &mut Session| call_requires(inner, (s,)),
    ensures
        cookie_value(request_cookies(request@.headers), cookie_name@) is Some ==> r is Some,
        r matches Some(resp) ==> exists|m: &mut Session, answer: Response|
            #[trigger] call_ensures(inner, (m,), answer) && starts_session(
                cookie_value(request_cookies(request@.headers), cookie_name@),
                (*m)@,
            ) && finishes_session(final(m)@, cookie_name@, timeout_s, answer, resp),
{
    let mut session = match start_session(request, cookie_name) {
        Some(s) => s,
        None => return None,
    };
    let response = inner(&mut session);
    Some(finish_session(&session, cookie_name, timeout_s, response))
}

} // verus!
