//! Running a CGI program to answer a request: the environment that the program is given and
//! the reading of the header lines that it prints. Starting the program is up to the caller.

use vstd::prelude::*;
use crate::decimal::{parse_decimal_range, parse_unsigned};
use crate::request::{header_value, path_part, query_part, Request};
use crate::text::{char_pos, chars_of, find_char_range, str_eq, string_from_range, string_of};
use crate::url_codec::decode_component;

verus! {

/// The value of a header, or the empty string.
pub open spec fn header_or_empty(h: Seq<(Seq<char>, Seq<char>)>, key: Seq<char>) -> Seq<char> {
    match header_value(h, key) {
        Some(v) => v,
        None => Seq::empty(),
    }
}

/// The environment variables that a CGI program is started with, in order.
pub open spec fn cgi_environment_spec(
    method: Seq<char>,
    url: Seq<char>,
    remote_addr: Seq<char>,
    h: Seq<(Seq<char>, Seq<char>)>,
) -> Seq<(Seq<char>, Seq<char>)> {
    seq![
        ("SERVER_SOFTWARE"@, "rouille"@),
        ("SERVER_NAME"@, "localhost"@),
        ("GATEWAY_INTERFACE"@, "CGI/1.1"@),
        ("SERVER_PROTOCOL"@, "HTTP/1.1"@),
        ("SERVER_PORT"@, "80"@),
        ("REQUEST_METHOD"@, method),
        ("PATH_INFO"@, decode_component(path_part(url))),
        ("SCRIPT_NAME"@, ""@),
        ("QUERY_STRING"@, query_part(url)),
        ("REMOTE_ADDR"@, remote_addr),
        ("AUTH_TYPE"@, ""@),
        ("REMOTE_USER"@, ""@),
        ("CONTENT_TYPE"@, header_or_empty(h, "Content-Type"@)),
        ("CONTENT_LENGTH"@, header_or_empty(h, "Content-Length"@)),
    ]
}

/// Pairs of strings as pairs of character sequences.
pub open spec fn pairs_view(v: Seq<(String, String)>) -> Seq<(Seq<char>, Seq<char>)> {
    v.map_values(|p: (String, String)| (p.0@, p.1@))
}

/// A header of the request, or the empty string.
fn header_or_empty_exec(request: &Request, key: &str) -> (s: String)
    ensures
        s@ == header_or_empty(request@.headers, key@),
{
    match request.header(key) {
        Some(v) => string_of(v),
        None => String::new(),
    }
}

/// Builds the environment variables that a CGI program is started with to answer `request`.
pub fn cgi_environment(request: &Request) -> (env: Vec<(String, String)>)
    ensures
        pairs_view(env@) == cgi_environment_spec(
            request@.method,
            request@.url,
            request@.remote_addr,
            request@.headers,
        ),
{
    let mut env: Vec<(String, String)> = Vec::new();
    env.push((string_of("SERVER_SOFTWARE"), string_of("rouille")));
    env.push((string_of("SERVER_NAME"), string_of("localhost")));
    env.push((string_of("GATEWAY_INTERFACE"), string_of("CGI/1.1")));
    env.push((string_of("SERVER_PROTOCOL"), string_of("HTTP/1.1")));
    env.push((string_of("SERVER_PORT"), string_of("80")));
    env.push((string_of("REQUEST_METHOD"), string_of(request.method())));
    env.push((string_of("PATH_INFO"), request.url()));
    env.push((string_of("SCRIPT_NAME"), string_of("")));
    env.push((string_of("QUERY_STRING"), request.raw_query_string()));
    env.push((string_of("REMOTE_ADDR"), string_of(request.remote_addr())));
    env.push((string_of("AUTH_TYPE"), string_of("")));
    env.push((string_of("REMOTE_USER"), string_of("")));
    env.push((string_of("CONTENT_TYPE"), header_or_empty_exec(request, "Content-Type")));
    env.push((string_of("CONTENT_LENGTH"), header_or_empty_exec(request, "Content-Length")));
    assert(pairs_view(env@) =~= cgi_environment_spec(
        request@.method,
        request@.url,
        request@.remote_addr,
        request@.headers,
    ));
    env
}

/// What a header line printed by a CGI program says.
#[derive(Debug)]
pub enum CgiHeader {
    /// A `Status` line: the status code of the response.
    Status(u16),
    /// Any other header.
    Header(String, String),
}

/// The value of a header line: what follows the `:` and the character after it.
pub open spec fn cgi_value(line: Seq<char>) -> Seq<char> {
    line.skip(char_pos(line, ':') + 2)
}

/// The name of a header line: what precedes the first `:`.
pub open spec fn cgi_name(line: Seq<char>) -> Seq<char> {
    line.take(char_pos(line, ':'))
}

/// A header line can be read: it has a `:` followed by a character that takes a single byte,
/// and a `Status` line's value starts with three characters that read as a status code.
pub open spec fn cgi_line_readable(line: Seq<char>) -> bool {
    let p = char_pos(line, ':');
    &&& p >= 0
    &&& p + 1 < line.len()
    &&& (line[p + 1] as u32) < 128
    &&& cgi_name(line) == "Status"@ ==> cgi_value(line).len() >= 3 && parse_unsigned(
        cgi_value(line).take(3),
        65535,
    ) is Some
}

/// Whether a header line printed by a CGI program can be read by `cgi_header_line`.
pub fn cgi_line_ok(line: &str) -> (b: bool)
    ensures
        b == cgi_line_readable(line@),
{
    let v = chars_of(line);
    let n = v.len();
    assert(v@.subrange(0, n as int) == v@);
    let p = match find_char_range(&v, 0, n, ':') {
        Some(p) => p,
        None => return false,
    };
    if !(p + 1 < n && (v[p + 1] as u32) < 128) {
        return false;
    }
    let name = string_from_range(&v, 0, p);
    assert(v@.take(p as int) == v@.subrange(0, p as int));
    if str_eq(name.as_str(), "Status") {
        if n - (p + 2) < 3 {
            return false;
        }
        assert(v@.skip(p + 2).take(3) == v@.subrange(p + 2, p + 5));
        parse_decimal_range(&v, p + 2, p + 5, 65535).is_some()
    } else {
        true
    }
}

/// Reads a header line printed by a CGI program: a `Status` line gives the status code (read
/// from the first three characters of its value), any other line a header.
pub fn cgi_header_line(line: &str) -> (r: CgiHeader)
    requires
        cgi_line_readable(line@),
    ensures
        if cgi_name(line@) == "Status"@ {
            r matches CgiHeader::Status(code) && parse_unsigned(cgi_value(line@).take(3), 65535)
                == Some(code as nat)
        } else {
            r matches CgiHeader::Header(name, value) && name@ == cgi_name(line@) && value@
                == cgi_value(line@)
        },
{
    let v = chars_of(line);
    let n = v.len();
    assert(v@.subrange(0, n as int) == v@);
    let p = match find_char_range(&v, 0, n, ':') {
        Some(p) => p,
        None => {
            return CgiHeader::Header(String::new(), String::new());
        },
    };
    let name = string_from_range(&v, 0, p);
    assert(v@.take(p as int) == v@.subrange(0, p as int));
    assert(v@.skip(p + 2) == v@.subrange(p + 2, n as int));
    if str_eq(name.as_str(), "Status") {
        assert(v@.skip(p + 2).take(3) == v@.subrange(p + 2, p + 5));
        match parse_decimal_range(&v, p + 2, p + 5, 65535) {
            Some(code) => CgiHeader::Status(code as u16),
            None => CgiHeader::Status(0),
        }
    } else {
        CgiHeader::Header(name, string_from_range(&v, p + 2, n))
    }
}

/// The status code and the headers that the header lines of a CGI program give: 200 unless
/// a `Status` line says otherwise (the last one counts), and every other line as a header.
pub open spec fn cgi_head_spec(lines: Seq<Seq<char>>) -> (nat, Seq<(Seq<char>, Seq<char>)>)
    decreases lines.len(),
{
    if lines.len() == 0 {
        (200, Seq::empty())
    } else {
        let (status, headers) = cgi_head_spec(lines.drop_last());
        let l = lines.last();
        if cgi_name(l) == "Status"@ {
            (parse_unsigned(cgi_value(l).take(3), 65535)->0, headers)
        } else {
            (status, headers.push((cgi_name(l), cgi_value(l))))
        }
    }
}

/// Reads the header lines that a CGI program printed before its body.
pub fn cgi_response_head(lines: &Vec<String>) -> (r: (u16, Vec<(String, String)>))
    requires
        forall|i: int| 0 <= i < lines@.len() ==> cgi_line_readable(#[trigger] lines@[i]@),
    ensures
        cgi_head_spec(lines@.map_values(|l: String| l@)) == (r.0 as nat, pairs_view(r.1@)),
{
    let ghost lv = lines@.map_values(|l: String| l@);
    let mut status: u16 = 200;
    let mut headers: Vec<(String, String)> = Vec::new();
    let mut i: usize = 0;
    while i < lines.len()
        invariant
            i <= lines@.len(),
            lv == lines@.map_values(|l: String| l@),
            forall|j: int| 0 <= j < lines@.len() ==> cgi_line_readable(#[trigger] lines@[j]@),
            cgi_head_spec(lv.take(i as int)) == (status as nat, pairs_view(headers@)),
        decreases lines@.len() - i,
    {
        assert(lv.take(i + 1).drop_last() == lv.take(i as int));
        assert(lv.take(i + 1).last() == lines@[i as int]@);
        assert(cgi_line_readable(lines@[i as int]@));
        match cgi_header_line(lines[i].as_str()) {
            CgiHeader::Status(code) => {
                status = code;
            },
            CgiHeader::Header(name, value) => {
                let ghost before = headers@;
                headers.push((name, value));
                assert(pairs_view(headers@) =~= pairs_view(before).push(
                    (cgi_name(lines@[i as int]@), cgi_value(lines@[i as int]@)),
                ));
            },
        }
        i += 1;
    }
    assert(lv.take(lines@.len() as int) == lv);
    (status, headers)
}

} // verus!
