//! Routes: which requests a handler answers, by method and by the pattern of the path.
//!
//! A pattern is a list of segments: a literal segment `/name` must be present as it is, and a
//! parameter segment `/{name}` takes what lies up to the next `/`. Trailing slashes of the path
//! are ignored, and the whole path must be used up.

use vstd::prelude::*;
use crate::text::{char_pos, chars_of, find_char_range, push_str_to, range_equals, string_from_range, string_of};

verus! {

/// An HTTP method.
#[derive(Debug, Clone, PartialEq, Eq)]
pub enum Method {
    Options,
    Get,
    Post,
    Put,
    Delete,
    Head,
    Trace,
    Connect,
    Patch,
    /// Any other method, by name.
    Extension(String),
}

/// How a log line names a method: its name in capitals, or the name of another method followed
/// by ` (custom)`.
pub open spec fn method_label_spec(m: Method) -> Seq<char> {
    match m {
        Method::Options => "OPTIONS"@,
        Method::Get => "GET"@,
        Method::Post => "POST"@,
        Method::Put => "PUT"@,
        Method::Delete => "DELETE"@,
        Method::Head => "HEAD"@,
        Method::Trace => "TRACE"@,
        Method::Connect => "CONNECT"@,
        Method::Patch => "PATCH"@,
        Method::Extension(e) => e@ + " (custom)"@,
    }
}

/// The name under which a log line shows a method.
pub fn method_label(m: &Method) -> (s: String)
    ensures
        s@ == method_label_spec(*m),
{
    match m {
        Method::Options => string_of("OPTIONS"),
        Method::Get => string_of("GET"),
        Method::Post => string_of("POST"),
        Method::Put => string_of("PUT"),
        Method::Delete => string_of("DELETE"),
        Method::Head => string_of("HEAD"),
        Method::Trace => string_of("TRACE"),
        Method::Connect => string_of("CONNECT"),
        Method::Patch => string_of("PATCH"),
        Method::Extension(e) => {
            let mut s = string_of(e.as_str());
            push_str_to(&mut s, " (custom)");
            s
        },
    }
}

/// How a log line shows the target of a request.
pub open spec fn uri_label_spec(u: RequestUri) -> Seq<char> {
    match u {
        RequestUri::AbsolutePath(p) => p@,
        RequestUri::AbsoluteUri(a) => a@,
        RequestUri::Authority(a) => a@,
        RequestUri::Star => "*"@,
    }
}

/// The text under which a log line shows the target of a request.
pub fn uri_label(u: &RequestUri) -> (s: String)
    ensures
        s@ == uri_label_spec(*u),
{
    match u {
        RequestUri::AbsolutePath(p) => string_of(p.as_str()),
        RequestUri::AbsoluteUri(a) => string_of(a.as_str()),
        RequestUri::Authority(a) => string_of(a.as_str()),
        RequestUri::Star => string_of("*"),
    }
}

/// The target of a request, as the request line gives it.
#[derive(Debug, Clone, PartialEq, Eq)]
pub enum RequestUri {
    /// A path, such as `/index.html`.
    AbsolutePath(String),
    /// A whole URL, such as `http://example.com/index.html`.
    AbsoluteUri(String),
    /// An authority, such as `example.com:80`.
    Authority(String),
    /// `*`.
    Star,
}

/// One segment of a pattern.
#[derive(Debug, Clone, PartialEq, Eq)]
pub enum Segment {
    /// `/name`, present as it is.
    Literal(String),
    /// `/{name}`: the text up to the next `/` is the value of the parameter `name`.
    Param(String),
}

/// The abstract content of a `Segment`.
pub enum SegmentView {
    Literal(Seq<char>),
    Param(Seq<char>),
}

impl View for Segment {
    type V = SegmentView;

    open spec fn view(&self) -> SegmentView {
        match self {
            Segment::Literal(s) => SegmentView::Literal(s@),
            Segment::Param(s) => SegmentView::Param(s@),
        }
    }
}

/// The pattern of the paths that a route answers.
pub struct Pattern(pub Vec<Segment>);

/// The path without its trailing slashes.
pub open spec fn trim_trailing_slashes(s: Seq<char>) -> Seq<char>
    decreases s.len(),
{
    if s.len() > 0 && s.last() == '/' {
        trim_trailing_slashes(s.drop_last())
    } else {
        s
    }
}

/// The parameters that the segments read from the input, or `None` if the input does not
/// match them.
pub open spec fn match_segments(segs: Seq<SegmentView>, input: Seq<char>) -> Option<
    Seq<(Seq<char>, Seq<char>)>,
>
    decreases segs.len(),
{
    if segs.len() == 0 {
        if input.len() == 0 {
            Some(Seq::empty())
        } else {
            None
        }
    } else {
        match segs[0] {
            SegmentView::Literal(name) => {
                let s = seq!['/'] + name;
                if s.len() <= input.len() && input.take(s.len() as int) == s {
                    match_segments(segs.drop_first(), input.skip(s.len() as int))
                } else {
                    None
                }
            },
            SegmentView::Param(name) => {
                if input.len() > 0 && input[0] == '/' {
                    let q = char_pos(input.skip(1), '/');
                    let end = if q < 0 {
                        input.len() as int
                    } else {
                        q + 1
                    };
                    match match_segments(segs.drop_first(), input.skip(end)) {
                        Some(ps) => Some(seq![(name, input.subrange(1, end))] + ps),
                        None => None,
                    }
                } else {
                    None
                }
            },
        }
    }
}

/// The segments of a pattern, viewed.
pub open spec fn segments_view(v: Seq<Segment>) -> Seq<SegmentView> {
    v.map_values(|s: Segment| s@)
}

/// Pairs of strings as pairs of character sequences.
pub open spec fn params_view(v: Seq<(String, String)>) -> Seq<(Seq<char>, Seq<char>)> {
    v.map_values(|p: (String, String)| (p.0@, p.1@))
}

impl Pattern {
    /// Matches a path against the pattern: the parameters that it reads, in order, or `Err` if
    /// the path does not match.
    pub fn parse(&self, url: &str) -> (r: Result<Vec<(String, String)>, ()>)
        ensures
            match match_segments(segments_view(self.0@), trim_trailing_slashes(url@)) {
                Some(ps) => (r matches Ok(v) && params_view(v@) == ps),
                None => r is Err,
            },
    {
        let v = chars_of(url);
        let mut end = v.len();
        assert(v@.take(v@.len() as int) == v@);
        while end > 0 && v[end - 1] == '/'
            invariant
                end <= v@.len(),
                trim_trailing_slashes(v@) == trim_trailing_slashes(v@.take(end as int)),
            decreases end,
        {
            assert(v@.take(end as int).drop_last() == v@.take(end - 1));
            end -= 1;
        }
        let ghost input = v@.take(end as int);
        assert(trim_trailing_slashes(v@) == input);
        let segs = &self.0;
        let ghost sv = segments_view(segs@);
        let mut params: Vec<(String, String)> = Vec::new();
        let mut pos: usize = 0;
        let mut k: usize = 0;
        assert(sv.skip(0) == sv);
        assert(input.skip(0) == input);
        while k < segs.len()
            invariant
                pos <= end <= v@.len(),
                input == v@.take(end as int),
                k <= segs@.len(),
                sv == segments_view(segs@),
                sv == segments_view(self.0@),
                trim_trailing_slashes(url@) == input,
                match_segments(sv, input) == match match_segments(sv.skip(k as int), input.skip(pos as int)) {
                    Some(ps) => Some(params_view(params@) + ps),
                    None => None::<Seq<(Seq<char>, Seq<char>)>>,
                },
            decreases segs@.len() - k,
        {
            let ghost rest = input.skip(pos as int);
            let ghost ss = sv.skip(k as int);
            assert(ss[0] == segs@[k as int]@);
            assert(ss.drop_first() == sv.skip(k + 1));
            match &segs[k] {
                Segment::Literal(name) => {
                    let mut lit = chars_of("/");
                    proof {
                        reveal_strlit("/");
                    }
                    let name_chars = chars_of(name.as_str());
                    let mut j: usize = 0;
                    while j < name_chars.len()
                        invariant
                            j <= name_chars@.len(),
                            lit@ == seq!['/'] + name_chars@.take(j as int),
                        decreases name_chars@.len() - j,
                    {
                        lit.push(name_chars[j]);
                        assert(name_chars@.take(j + 1) == name_chars@.take(j as int).push(
                            name_chars@[j as int],
                        ));
                        j += 1;
                    }
                    assert(name_chars@.take(name_chars@.len() as int) == name_chars@);
                    assert(ss[0] == SegmentView::Literal(name@));
                    assert(lit@ == seq!['/'] + name@);
                    let m = lit.len();
                    if m > end - pos || !range_equals(&v, pos, pos + m, &lit) {
                        proof {
                            if m <= end - pos {
                                assert(rest.take(m as int) == v@.subrange(pos as int, pos + m));
                            }
                            assert(match_segments(ss, rest) is None);
                        }
                        return Err(());
                    }
                    assert(rest.take(m as int) == v@.subrange(pos as int, pos + m));
                    assert(rest.skip(m as int) == input.skip(pos + m));
                    pos = pos + m;
                },
                Segment::Param(name) => {
                    assert(ss[0] == SegmentView::Param(name@));
                    if pos == end || v[pos] != '/' {
                        proof {
                            if pos < end {
                                assert(rest[0] == v@[pos as int]);
                            }
                            assert(match_segments(ss, rest) is None);
                        }
                        return Err(());
                    }
                    assert(rest[0] == v@[pos as int]);
                    let vend = match find_char_range(&v, pos + 1, end, '/') {
                        Some(q) => pos + 1 + q,
                        None => end,
                    };
                    assert(rest.skip(1) == v@.subrange(pos + 1, end as int));
                    assert(rest.subrange(1, vend - pos) == v@.subrange(pos + 1, vend as int));
                    assert(rest.skip(vend - pos) == input.skip(vend as int));
                    let value = string_from_range(&v, pos + 1, vend);
                    let ghost before = params@;
                    params.push((string_of(name.as_str()), value));
                    assert(params_view(params@) == params_view(before).push(
                        (name@, v@.subrange(pos + 1, vend as int)),
                    ));
                    pos = vend;
                },
            }
            k += 1;
        }
        if pos != end {
            return Err(());
        }
        assert(input.skip(pos as int).len() == 0);
        assert(params_view(params@) + Seq::empty() == params_view(params@));
        Ok(params)
    }
}

/// The methods that a route answers.
#[derive(Debug, Copy, Clone, PartialEq, Eq, Structural)]
pub struct MethodsMask {
    pub get: bool,
    pub post: bool,
    pub put: bool,
    pub delete: bool,
}

impl MethodsMask {
    /// Reads the methods of a route. Whatever it is given, the route answers `GET` only.
    pub fn parse(_methods: &str) -> (m: MethodsMask)
        ensures
            m == (MethodsMask { get: true, post: false, put: false, delete: false }),
    {
        MethodsMask { get: true, post: false, put: false, delete: false }
    }

    /// Whether the route answers the method: `GET`, `POST`, `PUT` and `DELETE` as the mask says,
    /// any other method never.
    pub fn matches(&self, method: &Method) -> (b: bool)
        ensures
            b == match method {
                Method::Get => self.get,
                Method::Post => self.post,
                Method::Put => self.put,
                Method::Delete => self.delete,
                _ => false,
            },
    {
        match method {
            Method::Get => self.get,
            Method::Post => self.post,
            Method::Put => self.put,
            Method::Delete => self.delete,
            _ => false,
        }
    }
}

/// A route: the pattern of its paths, its methods, and its handler.
pub struct Route<H> {
    pub url: Pattern,
    pub method: MethodsMask,
    pub handler: H,
}

impl<H> Route<H> {
    /// Whether the route answers a request with this method and target: the parameters read
    /// from the path, or `Err` if the method, the target or the path does not match.
    pub fn matches(&self, method: &Method, uri: &RequestUri) -> (r: Result<Vec<(String, String)>, ()>)
        ensures
            !self.method.matches_spec(*method) ==> r is Err,
            self.method.matches_spec(*method) ==> match uri {
                RequestUri::AbsolutePath(p) => match match_segments(
                    segments_view(self.url.0@),
                    trim_trailing_slashes(p@),
                ) {
                    Some(ps) => (r matches Ok(v) && params_view(v@) == ps),
                    None => r is Err,
                },
                _ => r is Err,
            },
    {
        if !self.method.matches(method) {
            return Err(());
        }
        match uri {
            RequestUri::AbsolutePath(p) => self.url.parse(p.as_str()),
            _ => Err(()),
        }
    }
}

impl MethodsMask {
    /// Whether the mask answers the method.
    pub open spec fn matches_spec(self, method: Method) -> bool {
        match method {
            Method::Get => self.get,
            Method::Post => self.post,
            Method::Put => self.put,
            Method::Delete => self.delete,
            _ => false,
        }
    }
}

/// A list of routes.
pub struct Router<H> {
    pub routes: Vec<Route<H>>,
}

/// The parameters that a route read from the path of a request.
#[derive(Debug, Clone, PartialEq, Eq)]
pub struct Params<'a, T>(pub &'a T);

impl<'a, T> Params<'a, T> {
    /// The parameters.
    pub fn get(&self) -> (r: &'a T)
        ensures
            *r == *self.0,
    {
        self.0
    }
}

/// Trailing slashes do not change what a pattern reads from a path: `/a/b/` and `/a/b`
/// match alike.
pub proof fn lemma_trailing_slash_ignored(segs: Seq<SegmentView>, url: Seq<char>)
    ensures
        match_segments(segs, trim_trailing_slashes(url.push('/'))) == match_segments(
            segs,
            trim_trailing_slashes(url),
        ),
{
    assert(url.push('/').drop_last() == url);
}

} // verus!
