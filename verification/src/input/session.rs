//! User sessions kept in memory.
//!
//! A `SessionsManager` holds the data of each session, by session identifier; a `Session` is
//! the session of one client, found from its cookie or newly created. The manager is shared
//! between the threads that answer requests by the caller, behind a lock.

use vstd::prelude::*;
use crate::input::cookies::request_cookies;
use crate::input::get_cookies;
use crate::request::Request;
use crate::response::Response;
use crate::text::{push_char_to, str_eq, string_of};

verus! {

/// An operating-system source of randomness (`rand::OsRng`).
#[verifier::external_type_specification]
#[verifier::external_body]
pub struct ExOsRng(rand::OsRng);

/// Opens the operating system's source of randomness (`rand::OsRng::new`); `None` if it cannot
/// be opened. Whether it can depends on the machine, so nothing is stated.
#[verifier::external_body]
fn open_os_rng() -> (r: Option<rand::OsRng>) {
    match rand::OsRng::new() {
        Ok(rng) => Some(rng),
        Err(_) => None,
    }
}

/// An ASCII letter or digit.
pub open spec fn is_alphanumeric(c: char) -> bool {
    ('a' <= c && c <= 'z') || ('A' <= c && c <= 'Z') || ('0' <= c && c <= '9')
}

/// Draws `n` random characters (`rand::Rng::gen_ascii_chars`, the first `n` items).
///
/// The contract states what the crate's source shows: the generator never ends, and each
/// character is taken from the ASCII letters and digits.
#[verifier::external_body]
fn draw_ascii(rng: &mut rand::OsRng, n: usize) -> (v: Vec<char>)
    ensures
        v@.len() == n,
        forall|i: int| 0 <= i < v@.len() ==> is_alphanumeric(#[trigger] v@[i]),
{
    rand::Rng::gen_ascii_chars(rng).take(n).collect()
}

/// A string suitable for a session ID: 64 ASCII letters and digits.
pub open spec fn is_session_id(s: Seq<char>) -> bool {
    s.len() == 64 && forall|i: int| 0 <= i < s.len() ==> is_alphanumeric(#[trigger] s[i])
}

/// The ASCII letters and digits of `s`, in order.
pub open spec fn alphanumerics(s: Seq<char>) -> Seq<char>
    decreases s.len(),
{
    if s.len() == 0 {
        Seq::empty()
    } else if is_alphanumeric(s.last()) {
        alphanumerics(s.drop_last()).push(s.last())
    } else {
        alphanumerics(s.drop_last())
    }
}

/// Characters that are all ASCII letters and digits are kept as they are.
proof fn lemma_alphanumerics_keep(s: Seq<char>)
    requires
        forall|i: int| 0 <= i < s.len() ==> is_alphanumeric(#[trigger] s[i]),
    ensures
        alphanumerics(s) == s,
    decreases s.len(),
{
    if s.len() > 0 {
        assert(is_alphanumeric(s[s.len() - 1]));
        lemma_alphanumerics_keep(s.drop_last());
        assert(s.drop_last().push(s.last()) == s);
    }
}

/// Builds a session identifier out of drawn characters: their ASCII letters and digits, in
/// order.
pub fn session_id_of(drawn: &Vec<char>) -> (s: String)
    ensures
        s@ == alphanumerics(drawn@),
{
    let mut id = String::new();
    let mut i: usize = 0;
    while i < drawn.len()
        invariant
            i <= drawn@.len(),
            id@ == alphanumerics(drawn@.take(i as int)),
        decreases drawn@.len() - i,
    {
        let c = drawn[i];
        assert(drawn@.take(i + 1).drop_last() == drawn@.take(i as int));
        assert(drawn@.take(i + 1).last() == c);
        if ('a' <= c && c <= 'z') || ('A' <= c && c <= 'Z') || ('0' <= c && c <= '9') {
            push_char_to(&mut id, c);
        }
        i += 1;
    }
    assert(drawn@.take(i as int) == drawn@);
    id
}

/// Draws a session identifier from an opened source of randomness: 64 characters drawn from
/// it, all ASCII letters and digits.
pub fn session_id_from(rng: &mut rand::OsRng) -> (s: String)
    ensures
        is_session_id(s@),
{
    let drawn = draw_ascii(rng, 64);
    proof {
        lemma_alphanumerics_keep(drawn@);
    }
    session_id_of(&drawn)
}

/// Generates a string suitable for a session ID.
///
/// The output string doesn't contain any punctuation or character such as quotes or brackets
/// that could need to be escaped. Returns `None` if the operating system's source of randomness
/// cannot be opened; whether it can is up to the machine, so no contract promises success.
pub fn generate_session_id() -> (r: Option<String>)
    ensures
        r matches Some(s) ==> is_session_id(s@),
{
    match open_os_rng() {
        Some(mut rng) => Some(session_id_from(&mut rng)),
        None => None,
    }
}

/// Manages all active user sessions in memory.
pub struct SessionsManager<T> {
    sessions: Vec<(String, T)>,
    cookie_name: String,
    timeout_s: u64,
}

/// No two sessions share an identifier.
pub open spec fn unique_keys<T>(s: Seq<(String, T)>) -> bool {
    forall|i: int, j: int|
        0 <= i < s.len() && 0 <= j < s.len() && i != j ==> (#[trigger] s[i]).0@ != (#[trigger] s[j]).0@
}

/// Some entry has the identifier `k`.
pub open spec fn has_key<T>(s: Seq<(String, T)>, k: Seq<char>) -> bool {
    exists|i: int| 0 <= i < s.len() && (#[trigger] s[i]).0@ == k
}

/// The entries as a map from identifier to data.
pub open spec fn entries_map<T>(s: Seq<(String, T)>) -> Map<Seq<char>, T> {
    Map::new(
        |k: Seq<char>| has_key(s, k),
        |k: Seq<char>| s[choose|i: int| 0 <= i < s.len() && (#[trigger] s[i]).0@ == k].1,
    )
}

/// With unique identifiers, the entry at `i` gives the data of its identifier.
proof fn lemma_entry<T>(s: Seq<(String, T)>, i: int)
    requires
        unique_keys(s),
        0 <= i < s.len(),
    ensures
        entries_map(s).contains_key(s[i].0@),
        entries_map(s)[s[i].0@] == s[i].1,
{
    let k = s[i].0@;
    assert(has_key(s, k));
    let j = choose|j: int| 0 <= j < s.len() && (#[trigger] s[j]).0@ == k;
    if j != i {
        assert(s[i].0@ != s[j].0@);
    }
}

impl<T> View for SessionsManager<T> {
    type V = Map<Seq<char>, T>;

    /// The data of each session, by identifier.
    closed spec fn view(&self) -> Map<Seq<char>, T> {
        entries_map(self.sessions@)
    }
}

impl<T> SessionsManager<T> {
    #[verifier::type_invariant]
    closed spec fn keys_unique(&self) -> bool {
        unique_keys(self.sessions@)
    }

    /// The name of the cookie that holds the session identifier.
    pub closed spec fn cookie_name_spec(&self) -> Seq<char> {
        self.cookie_name@
    }

    /// How long a session lasts, in seconds.
    pub closed spec fn timeout_spec(&self) -> u64 {
        self.timeout_s
    }

    /// Initializes the sessions manager.
    ///
    /// - `cookie_name`: The name of the cookie to use. Usually `SID`.
    /// - `timeout_s`: The duration of the session, in seconds. Usually 3600.
    pub fn new(cookie_name: &str, timeout_s: u64) -> (m: SessionsManager<T>)
        ensures
            m@ == Map::<Seq<char>, T>::empty(),
            m.cookie_name_spec() == cookie_name@,
            m.timeout_spec() == timeout_s,
    {
        let m = SessionsManager { sessions: Vec::new(), cookie_name: string_of(cookie_name), timeout_s };
        assert(m@ =~= Map::<Seq<char>, T>::empty());
        m
    }

    /// Where the session `key` is kept, if it is.
    fn position(&self, key: &str) -> (r: Option<usize>)
        ensures
            match r {
                Some(i) => i < self.sessions@.len() && self.sessions@[i as int].0@ == key@,
                None => !has_key(self.sessions@, key@),
            },
    {
        let mut i: usize = 0;
        while i < self.sessions.len()
            invariant
                i <= self.sessions@.len(),
                forall|j: int| 0 <= j < i ==> (#[trigger] self.sessions@[j]).0@ != key@,
            decreases self.sessions@.len() - i,
        {
            if str_eq(self.sessions[i].0.as_str(), key) {
                return Some(i);
            }
            i += 1;
        }
        None
    }

    /// Tries to load the existing session of the request, from its cookie, or creates one if
    /// there is no session yet. Returns `None` if a new session identifier was needed and the
    /// operating system's source of randomness could not be opened.
    pub fn start(&self, request: &Request) -> (s: Option<Session>)
        ensures
            match cookie_value(request_cookies(request@.headers), self.cookie_name_spec()) {
                Some(v) => s matches Some(session) && session.key_spec() == v,
                None => s matches Some(session) ==> is_session_id(session.key_spec()),
            },
    {
        match find_cookie(request, self.cookie_name.as_str()) {
            Some(key) => Some(Session { key }),
            None => match generate_session_id() {
                Some(key) => Some(Session { key }),
                None => None,
            },
        }
    }
}

/// The value of the first cookie named `name`.
pub open spec fn cookie_value(cookies: Seq<(Seq<char>, Seq<char>)>, name: Seq<char>) -> Option<
    Seq<char>,
>
    decreases cookies.len(),
{
    if cookies.len() == 0 {
        None
    } else if cookies[0].0 == name {
        Some(cookies[0].1)
    } else {
        cookie_value(cookies.drop_first(), name)
    }
}

/// The value of the first cookie of the request named `name`.
pub(crate) fn find_cookie(request: &Request, name: &str) -> (r: Option<String>)
    ensures
        match cookie_value(request_cookies(request@.headers), name@) {
            Some(v) => r matches Some(s) && s@ == v,
            None => r is None,
        },
{
    let cookies = get_cookies(request);
    let ghost cv = crate::request::headers_view(cookies@);
    assert(cv.skip(0) == cv);
    let mut i: usize = 0;
    while i < cookies.len()
        invariant
            i <= cookies@.len(),
            cv == crate::request::headers_view(cookies@),
            cv == request_cookies(request@.headers),
            cookie_value(cv, name@) == cookie_value(cv.skip(i as int), name@),
        decreases cookies@.len() - i,
    {
        assert(cv.skip(i as int)[0] == cv[i as int]);
        assert(cv.skip(i as int).drop_first() == cv.skip(i + 1));
        assert(cv[i as int] == (cookies@[i as int].0@, cookies@[i as int].1@));
        if str_eq(cookies[i].0.as_str(), name) {
            return Some(string_of(cookies[i].1.as_str()));
        }
        i += 1;
    }
    None
}

/// Represents the session of one client, by its identifier.
pub struct Session {
    key: String,
}

/// The `Set-Cookie` value that keeps a session: `name=key; Max-Age=timeout`.
pub open spec fn session_cookie(name: Seq<char>, key: Seq<char>, timeout_s: u64) -> Seq<char> {
    name + "="@ + key + "; Max-Age="@ + crate::decimal::decimal_chars(timeout_s as nat)
}

impl Session {
    /// The identifier of the session.
    pub closed spec fn key_spec(&self) -> Seq<char> {
        self.key@
    }

    /// Loads the session data from the manager. Returns `None` if there is no data yet.
    pub fn get<T: Clone>(&self, manager: &SessionsManager<T>) -> (r: Option<T>)
        ensures
            match manager@.get(self.key_spec()) {
                Some(v) => r matches Some(c) && cloned(v, c),
                None => r is None,
            },
    {
        proof {
            use_type_invariant(manager);
        }
        match manager.position(self.key.as_str()) {
            Some(i) => {
                proof {
                    lemma_entry(manager.sessions@, i as int);
                }
                Some(manager.sessions[i].1.clone())
            },
            None => None,
        }
    }

    /// Returns true if there is session data.
    pub fn has_data<T>(&self, manager: &SessionsManager<T>) -> (b: bool)
        ensures
            b == manager@.contains_key(self.key_spec()),
    {
        manager.position(self.key.as_str()).is_some()
    }

    /// Stores the session data in the manager.
    pub fn set<T>(&self, manager: &mut SessionsManager<T>, value: T)
        ensures
            final(manager)@ == old(manager)@.insert(self.key_spec(), value),
            final(manager).cookie_name_spec() == old(manager).cookie_name_spec(),
            final(manager).timeout_spec() == old(manager).timeout_spec(),
    {
        proof {
            use_type_invariant(&*manager);
        }
        let ghost old_s = manager.sessions@;
        let found = manager.position(self.key.as_str());
        let mut sessions: Vec<(String, T)> = Vec::new();
        std::mem::swap(&mut sessions, &mut manager.sessions);
        match found {
            Some(i) => {
                sessions.set(i, (string_of(self.key.as_str()), value));
                proof {
                    let s = sessions@;
                    assert forall|a: int, b: int|
                        0 <= a < s.len() && 0 <= b < s.len() && a != b implies (#[trigger] s[a]).0@
                        != (#[trigger] s[b]).0@ by {
                        assert(old_s[a].0@ != old_s[b].0@);
                    }
                    assert forall|k: Seq<char>| #[trigger] has_key(s, k) == has_key(old_s, k) by {
                        if has_key(old_s, k) {
                            let j = choose|j: int| 0 <= j < old_s.len() && (#[trigger] old_s[j]).0@ == k;
                            assert(s[j].0@ == k);
                        }
                        if has_key(s, k) {
                            let j = choose|j: int| 0 <= j < s.len() && (#[trigger] s[j]).0@ == k;
                            assert(old_s[j].0@ == k);
                        }
                    }
                    assert forall|k: Seq<char>| has_key(s, k) implies #[trigger] entries_map(s)[k]
                        == old(manager)@.insert(self.key@, value)[k] by {
                        let j = choose|j: int| 0 <= j < s.len() && (#[trigger] s[j]).0@ == k;
                        lemma_entry(s, j);
                        lemma_entry(old_s, j);
                    }
                    assert(entries_map(s) =~= old(manager)@.insert(self.key@, value));
                }
            },
            None => {
                sessions.push((string_of(self.key.as_str()), value));
                proof {
                    let s = sessions@;
                    let n = old_s.len() as int;
                    assert forall|a: int, b: int|
                        0 <= a < s.len() && 0 <= b < s.len() && a != b implies (#[trigger] s[a]).0@
                        != (#[trigger] s[b]).0@ by {
                        if a < n && b < n {
                            assert(old_s[a].0@ != old_s[b].0@);
                        } else if a == n {
                            assert(old_s[b] == s[b]);
                        } else {
                            assert(old_s[a] == s[a]);
                        }
                    }
                    assert forall|k: Seq<char>| #[trigger] has_key(s, k) == (has_key(old_s, k) || k
                        == self.key@) by {
                        if has_key(old_s, k) {
                            let j = choose|j: int| 0 <= j < old_s.len() && (#[trigger] old_s[j]).0@ == k;
                            assert(s[j].0@ == k);
                        }
                        if k == self.key@ {
                            assert(s[n].0@ == k);
                        }
                        if has_key(s, k) && k != self.key@ {
                            let j = choose|j: int| 0 <= j < s.len() && (#[trigger] s[j]).0@ == k;
                            assert(j < n);
                            assert(old_s[j].0@ == k);
                        }
                    }
                    assert forall|k: Seq<char>| has_key(s, k) implies #[trigger] entries_map(s)[k]
                        == old(manager)@.insert(self.key@, value)[k] by {
                        let j = choose|j: int| 0 <= j < s.len() && (#[trigger] s[j]).0@ == k;
                        lemma_entry(s, j);
                        if j < n {
                            lemma_entry(old_s, j);
                        }
                    }
                    assert(entries_map(s) =~= old(manager)@.insert(self.key@, value));
                }
            },
        }
        manager.sessions = sessions;
    }

    /// Removes the session data from the manager.
    pub fn clear<T>(&self, manager: &mut SessionsManager<T>)
        ensures
            final(manager)@ == old(manager)@.remove(self.key_spec()),
            final(manager).cookie_name_spec() == old(manager).cookie_name_spec(),
            final(manager).timeout_spec() == old(manager).timeout_spec(),
    {
        proof {
            use_type_invariant(&*manager);
        }
        let ghost old_s = manager.sessions@;
        let found = manager.position(self.key.as_str());
        let mut sessions: Vec<(String, T)> = Vec::new();
        std::mem::swap(&mut sessions, &mut manager.sessions);
        match found {
            Some(i) => {
                let _ = sessions.remove(i);
                proof {
                    let s = sessions@;
                    let ii = i as int;
                    assert forall|j: int| 0 <= j < s.len() implies #[trigger] s[j] == if j < ii {
                        old_s[j]
                    } else {
                        old_s[j + 1]
                    } by {}
                    assert forall|a: int, b: int|
                        0 <= a < s.len() && 0 <= b < s.len() && a != b implies (#[trigger] s[a]).0@
                        != (#[trigger] s[b]).0@ by {
                        let oa = if a < ii { a } else { a + 1 };
                        let ob = if b < ii { b } else { b + 1 };
                        assert(old_s[oa].0@ != old_s[ob].0@);
                    }
                    assert forall|k: Seq<char>| #[trigger] has_key(s, k) == (has_key(old_s, k) && k
                        != self.key@) by {
                        if has_key(s, k) {
                            let j = choose|j: int| 0 <= j < s.len() && (#[trigger] s[j]).0@ == k;
                            let oj = if j < ii { j } else { j + 1 };
                            assert(old_s[oj].0@ == k);
                            assert(oj != ii);
                            assert(old_s[ii].0@ != old_s[oj].0@);
                        }
                        if has_key(old_s, k) && k != self.key@ {
                            let j = choose|j: int| 0 <= j < old_s.len() && (#[trigger] old_s[j]).0@ == k;
                            assert(j != ii);
                            let nj = if j < ii { j } else { j - 1 };
                            assert(s[nj].0@ == k);
                        }
                    }
                    assert forall|k: Seq<char>| has_key(s, k) implies #[trigger] entries_map(s)[k]
                        == old(manager)@.remove(self.key@)[k] by {
                        let j = choose|j: int| 0 <= j < s.len() && (#[trigger] s[j]).0@ == k;
                        let oj = if j < ii { j } else { j + 1 };
                        lemma_entry(s, j);
                        lemma_entry(old_s, oj);
                    }
                    assert(entries_map(s) =~= old(manager)@.remove(self.key@));
                }
            },
            None => {
                assert(old(manager)@.remove(self.key@) =~= old(manager)@);
            },
        }
        manager.sessions = sessions;
    }

    /// Applies the session on the `Response`: if there is session data, adds the cookie that
    /// keeps the session on the next requests. If you don't do that, the session won't be
    /// maintained on further connections.
    pub fn apply<T>(&self, manager: &SessionsManager<T>, response: Response) -> (r: Response)
        ensures
            !manager@.contains_key(self.key_spec()) ==> r == response,
            manager@.contains_key(self.key_spec()) ==> {
                &&& r.status_code == response.status_code
                &&& r.data == response.data
                &&& r.upgrade == response.upgrade
                &&& r.headers@.len() == response.headers@.len() + 1
                &&& r.headers@.take(response.headers@.len() as int) == response.headers@
                &&& r.headers@.last().0@ == "Set-Cookie"@
                &&& r.headers@.last().1@ == session_cookie(
                    manager.cookie_name_spec(),
                    self.key_spec(),
                    manager.timeout_spec(),
                )
            },
    {
        if !self.has_data(manager) {
            return response;
        }
        let mut value = string_of(manager.cookie_name.as_str());
        crate::text::push_str_to(&mut value, "=");
        crate::text::push_str_to(&mut value, self.key.as_str());
        crate::text::push_str_to(&mut value, "; Max-Age=");
        crate::decimal::push_decimal_chars(&mut value, manager.timeout_s);
        let mut response = response;
        let ghost before = response.headers@;
        response.headers.push((string_of("Set-Cookie"), value));
        assert(response.headers@.take(before.len() as int) == before);
        response
    }
}

/// What `set` stores, `get` gives back (as a clone), and `has_data` then reports data.
pub proof fn lemma_set_then_get<T>(sessions: Map<Seq<char>, T>, key: Seq<char>, value: T)
    ensures
        sessions.insert(key, value).get(key) == Some(value),
        sessions.insert(key, value).contains_key(key),
{
}

/// After `clear`, a session has no data.
pub proof fn lemma_clear_then_no_data<T>(sessions: Map<Seq<char>, T>, key: Seq<char>)
    ensures
        !sessions.remove(key).contains_key(key),
        sessions.remove(key).get(key) is None,
{
}

/// Storing or clearing the data of one session leaves every other session as it was.
pub proof fn lemma_sessions_independent<T>(
    sessions: Map<Seq<char>, T>,
    key: Seq<char>,
    other: Seq<char>,
    value: T,
)
    requires
        key != other,
    ensures
        sessions.insert(key, value).get(other) == sessions.get(other),
        sessions.remove(key).get(other) == sessions.get(other),
{
}

/// A session identifier is made of characters that need no escaping in a cookie: no quote,
/// separator, space or control character.
pub proof fn lemma_session_id_needs_no_escaping(id: Seq<char>, i: int)
    requires
        is_session_id(id),
        0 <= i < id.len(),
    ensures
        id[i] != '"' && id[i] != ';' && id[i] != ',' && id[i] != ' ' && id[i] != '=' && id[i] != '\\',
        (id[i] as u32) > 32 && (id[i] as u32) < 127,
{
    assert(is_alphanumeric(id[i]));
}

/// Two requests whose cookies give the same identifier reach the same session: what one
/// request's session stores, the other request's session loads.
pub proof fn lemma_same_cookie_same_session<T>(
    sessions: Map<Seq<char>, T>,
    first: Seq<(Seq<char>, Seq<char>)>,
    second: Seq<(Seq<char>, Seq<char>)>,
    cookie_name: Seq<char>,
    value: T,
)
    requires
        cookie_value(request_cookies(first), cookie_name) is Some,
        cookie_value(request_cookies(first), cookie_name) == cookie_value(
            request_cookies(second),
            cookie_name,
        ),
    ensures
        sessions.insert(cookie_value(request_cookies(first), cookie_name)->0, value).get(
            cookie_value(request_cookies(second), cookie_name)->0,
        ) == Some(value),
{
}

} // verus!
