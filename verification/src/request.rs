//! The request side of the wire codec: reads one request head from raw bytes.
//!
//! A head is a start line and a run of header lines, each terminated by the
//! two bytes `\r\n`, ended by one empty line. A bare `\n` is rejected, not
//! tolerated. The start line holds exactly three space-separated tokens, the
//! third of the form `HTTP/<version>`. A header line splits at the first
//! `": "`; names are stored lower-cased, and a repeated name overwrites the
//! earlier value.
use vstd::prelude::*;

use crate::bytes::{find_byte, find_byte_from, lowercase_of, to_lowercase, bytes_eq};
use crate::headers::{HeaderMap, insert_entry};
use crate::tokens::{http_upper, http_upper_bytes};
use vstd::slice::{slice_subrange, slice_to_vec};

verus! {

/// Why a request head was rejected; any of these ends the connection.
#[derive(Clone, Copy, PartialEq, Eq, Structural, Debug)]
pub enum ParseError {
    /// A line did not end with `\r\n`.
    MalformedLineTerminator,
    /// The start line did not hold exactly three space-separated tokens.
    MalformedStartLine,
    /// The third start-line token was not `HTTP/<version>`.
    MalformedVersion,
    /// A header line had no `": "` separator.
    MalformedHeaderLine,
}

/// The first line of `s` and what follows it: content up to the first `\n`,
/// which must be directly preceded by `\r`.
pub open spec fn spec_line(s: Seq<u8>) -> Result<(Seq<u8>, Seq<u8>), ParseError> {
    match find_byte(s, 0x0a) {
        None => Err(ParseError::MalformedLineTerminator),
        Some(i) => if i >= 1 && s[i - 1] == 0x0d {
            Ok((s.take(i - 1), s.skip(i + 1)))
        } else {
            Err(ParseError::MalformedLineTerminator)
        },
    }
}

/// The version token must read `HTTP/<version>` with a single `/`; the
/// result is `<version>`.
pub open spec fn spec_version(third: Seq<u8>) -> Result<Seq<u8>, ParseError> {
    match find_byte(third, 0x2f) {
        None => Err(ParseError::MalformedVersion),
        Some(i) => if third.take(i) == http_upper() && find_byte(third.skip(i + 1), 0x2f)
            is None {
            Ok(third.skip(i + 1))
        } else {
            Err(ParseError::MalformedVersion)
        },
    }
}

/// The parsed start line: three space-separated tokens.
pub ghost struct StartLineV {
    pub method: Seq<u8>,
    pub path: Seq<u8>,
    pub version: Seq<u8>,
}

/// Split a start line into exactly three space-separated tokens and check
/// the version token.
pub open spec fn spec_start_line(line: Seq<u8>) -> Result<StartLineV, ParseError> {
    match find_byte(line, 0x20) {
        None => Err(ParseError::MalformedStartLine),
        Some(i) => {
            let rest = line.skip(i + 1);
            match find_byte(rest, 0x20) {
                None => Err(ParseError::MalformedStartLine),
                Some(j) => {
                    let third = rest.skip(j + 1);
                    if find_byte(third, 0x20) is Some {
                        Err(ParseError::MalformedStartLine)
                    } else {
                        match spec_version(third) {
                            Err(e) => Err(e),
                            Ok(v) => Ok(
                                StartLineV {
                                    method: line.take(i),
                                    path: rest.take(j),
                                    version: v,
                                },
                            ),
                        }
                    }
                },
            }
        },
    }
}

/// Index of the first `": "` in `s`, if any.
pub open spec fn find_colon_space(s: Seq<u8>) -> Option<int>
    decreases s.len(),
{
    if s.len() < 2 {
        None
    } else if s[0] == 0x3a && s[1] == 0x20 {
        Some(0)
    } else {
        match find_colon_space(s.skip(1)) {
            Some(i) => Some(i + 1),
            None => None,
        }
    }
}

/// `find_colon_space` returns the least index where `": "` starts, or `None`
/// when the two bytes never occur adjacently.
pub proof fn lemma_find_colon_space(s: Seq<u8>)
    ensures
        match find_colon_space(s) {
            Some(i) => 0 <= i && i + 1 < s.len() && s[i] == 0x3a && s[i + 1] == 0x20 && forall|
                j: int,
            | 0 <= j < i ==> !(#[trigger] s[j] == 0x3a && s[j + 1] == 0x20),
            None => forall|j: int|
                0 <= j && j + 1 < s.len() ==> !(#[trigger] s[j] == 0x3a && s[j + 1] == 0x20),
        },
    decreases s.len(),
{
    if s.len() >= 2 && !(s[0] == 0x3a && s[1] == 0x20) {
        lemma_find_colon_space(s.skip(1));
        let t = s.skip(1);
        assert forall|j: int| 0 <= j && j + 1 < t.len() implies #[trigger] t[j] == s[j + 1] && t[j
            + 1] == s[j + 2] by {}
        match find_colon_space(t) {
            Some(i) => {
                assert forall|j: int| 0 <= j < i + 1 implies !(#[trigger] s[j] == 0x3a && s[j + 1]
                    == 0x20) by {
                    if j > 0 {
                        assert(t[j - 1] == s[j] && t[j] == s[j + 1]);
                    }
                }
            },
            None => {
                assert forall|j: int| 0 <= j && j + 1 < s.len() implies !(#[trigger] s[j] == 0x3a
                    && s[j + 1] == 0x20) by {
                    if j > 0 {
                        assert(t[j - 1] == s[j] && t[j] == s[j + 1]);
                    }
                }
            },
        }
    }
}

/// An adjacent `": "` with none before it marks the index `find_colon_space`
/// returns.
pub proof fn lemma_find_colon_space_is(s: Seq<u8>, i: int)
    requires
        0 <= i,
        i + 1 < s.len(),
        s[i] == 0x3a,
        s[i + 1] == 0x20,
        forall|j: int| 0 <= j < i ==> !(#[trigger] s[j] == 0x3a && s[j + 1] == 0x20),
    ensures
        find_colon_space(s) == Some(i),
{
    lemma_find_colon_space(s);
    match find_colon_space(s) {
        Some(n) => {
            if n < i {
                assert(!(s[n] == 0x3a && s[n + 1] == 0x20));
            }
            if n > i {
                assert(!(s[i] == 0x3a && s[i + 1] == 0x20));
            }
        },
        None => {
            assert(!(s[i] == 0x3a && s[i + 1] == 0x20));
        },
    }
}

/// A header line split at the first `": "`: the lower-cased name and the raw
/// value.
pub open spec fn spec_header_line(line: Seq<u8>) -> Result<(Seq<u8>, Seq<u8>), ParseError> {
    match find_colon_space(line) {
        None => Err(ParseError::MalformedHeaderLine),
        Some(i) => Ok((lowercase_of(line.take(i)), line.skip(i + 2))),
    }
}

/// Consume header lines from `s`, folding each into `acc` with last write
/// wins, until the empty line; the result pairs the final entries with what
/// follows the empty line.
pub open spec fn spec_parse_headers(s: Seq<u8>, acc: Seq<(Seq<u8>, Seq<u8>)>) -> Result<
    (Seq<(Seq<u8>, Seq<u8>)>, Seq<u8>),
    ParseError,
>
    decreases s.len(),
    via spec_parse_headers_decreases
{
    match spec_line(s) {
        Err(e) => Err(e),
        Ok((line, rest)) => if line.len() == 0 {
            Ok((acc, rest))
        } else {
            match spec_header_line(line) {
                Err(e) => Err(e),
                Ok((k, v)) => spec_parse_headers(rest, insert_entry(acc, k, v)),
            }
        },
    }
}

#[via_fn]
proof fn spec_parse_headers_decreases(s: Seq<u8>, acc: Seq<(Seq<u8>, Seq<u8>)>) {
    match find_byte(s, 0x0a) {
        Some(i) => {
            crate::bytes::lemma_find_byte(s, 0x0a);
        },
        None => {},
    }
}

/// The parsed request head: start line, folded headers, body.
pub ghost struct RequestV {
    pub start_line: StartLineV,
    pub headers: Seq<(Seq<u8>, Seq<u8>)>,
    pub body: Seq<u8>,
}

/// Parse one request head from the front of `s`: the start line, then header
/// lines up to the empty line. The body is left empty; the second component
/// counts the bytes consumed.
pub open spec fn spec_parse_request(s: Seq<u8>) -> Result<(RequestV, int), ParseError> {
    match spec_line(s) {
        Err(e) => Err(e),
        Ok((line, rest)) => match spec_start_line(line) {
            Err(e) => Err(e),
            Ok(sl) => match spec_parse_headers(rest, Seq::empty()) {
                Err(e) => Err(e),
                Ok((entries, rem)) => Ok(
                    (
                        RequestV { start_line: sl, headers: entries, body: Seq::empty() },
                        s.len() - rem.len(),
                    ),
                ),
            },
        },
    }
}

/// The first line of an HTTP request: method, path and version.
pub struct StartLine {
    pub method: Vec<u8>,
    pub path: Vec<u8>,
    pub version: Vec<u8>,
}

impl View for StartLine {
    type V = StartLineV;

    open spec fn view(&self) -> StartLineV {
        StartLineV { method: self.method@, path: self.path@, version: self.version@ }
    }
}

/// One request: its start line, its headers keyed by lower-cased name, and
/// its body bytes.
pub struct Request {
    pub start_line: StartLine,
    pub headers: HeaderMap,
    pub body: Vec<u8>,
}

impl View for Request {
    type V = RequestV;

    open spec fn view(&self) -> RequestV {
        RequestV { start_line: self.start_line@, headers: self.headers@, body: self.body@ }
    }
}

/// Read one `\r\n`-terminated line starting at `pos`: its content and the
/// position just past the terminator.
fn read_line(input: &[u8], pos: usize) -> (r: Result<(Vec<u8>, usize), ParseError>)
    requires
        pos <= input@.len(),
    ensures
        match r {
            Ok(p) => spec_line(input@.skip(pos as int)) == Ok::<_, ParseError>(
                (p.0@, input@.skip(p.1 as int)),
            ) && pos + 2 <= p.1 <= input@.len(),
            Err(e) => spec_line(input@.skip(pos as int)) == Err::<(Seq<u8>, Seq<u8>), _>(e),
        },
{
    let s = Ghost(input@.skip(pos as int));
    match find_byte_from(input, pos, 0x0a) {
        None => Err(ParseError::MalformedLineTerminator),
        Some(j) => {
            if j > pos && input[j - 1] == 0x0d {
                let line = slice_to_vec(slice_subrange(input, pos, j - 1));
                proof {
                    assert(s@[j - pos - 1] == input@[j - 1]);
                    assert(line@ =~= s@.take(j - pos - 1));
                    assert(input@.skip(j + 1) =~= s@.skip(j - pos + 1));
                }
                Ok((line, j + 1))
            } else {
                proof {
                    if j > pos {
                        assert(s@[j - pos - 1] == input@[j - 1]);
                    }
                }
                Err(ParseError::MalformedLineTerminator)
            }
        },
    }
}

impl StartLine {
    /// Parse a start line from the bytes of one line.
    #[verifier::rlimit(60)]
    pub fn parse(line: &[u8]) -> (r: Result<StartLine, ParseError>)
        ensures
            match r {
                Ok(sl) => spec_start_line(line@) == Ok::<_, ParseError>(sl@),
                Err(e) => spec_start_line(line@) == Err::<StartLineV, _>(e),
            },
    {
        let n = line.len();
        proof {
            assert(line@.skip(0) =~= line@);
        }
        let i = match find_byte_from(line, 0, 0x20) {
            None => {
                return Err(ParseError::MalformedStartLine);
            },
            Some(i) => i,
        };
        let j = match find_byte_from(line, i + 1, 0x20) {
            None => {
                return Err(ParseError::MalformedStartLine);
            },
            Some(j) => j,
        };
        let ghost rest = line@.skip(i + 1);
        let ghost third = rest.skip(j - i);
        proof {
            assert(third =~= line@.skip(j + 1));
        }
        match find_byte_from(line, j + 1, 0x20) {
            None => {},
            Some(_) => {
                return Err(ParseError::MalformedStartLine);
            },
        }
        let third_sl = slice_subrange(line, j + 1, line.len());
        let m = third_sl.len();
        proof {
            assert(third_sl@ =~= third);
            assert(third_sl@.skip(0) =~= third_sl@);
        }
        let k = match find_byte_from(third_sl, 0, 0x2f) {
            None => {
                return Err(ParseError::MalformedVersion);
            },
            Some(k) => k,
        };
        let name = slice_subrange(third_sl, 0, k);
        proof {
            assert(name@ =~= third.take(k as int));
        }
        if !bytes_eq(name, http_upper_bytes().as_slice()) {
            return Err(ParseError::MalformedVersion);
        }
        match find_byte_from(third_sl, k + 1, 0x2f) {
            None => {},
            Some(_) => {
                return Err(ParseError::MalformedVersion);
            },
        }
        let method = slice_to_vec(slice_subrange(line, 0, i));
        let path = slice_to_vec(slice_subrange(line, i + 1, j));
        let version = slice_to_vec(slice_subrange(third_sl, k + 1, third_sl.len()));
        let sl = StartLine { method, path, version };
        proof {
            assert(sl@.method =~= line@.take(i as int));
            assert(sl@.path =~= rest.take(j - i - 1));
            assert(sl@.version =~= third.skip(k + 1));
            assert(spec_version(third) == Ok::<_, ParseError>(sl@.version));
        }
        Ok(sl)
    }
}

impl Request {
    /// Parse one request head from the front of `input`; the body is left
    /// empty and the returned count says how many bytes were consumed.
    pub fn parse(input: &[u8]) -> (r: Result<(Request, usize), ParseError>)
        ensures
            match r {
                Ok(p) => spec_parse_request(input@) == Ok::<_, ParseError>((p.0@, p.1 as int))
                    && p.0.headers.wf() && p.1 <= input@.len() && p.0@.body.len() == 0,
                Err(e) => spec_parse_request(input@) == Err::<(RequestV, int), _>(e),
            },
    {
        proof {
            assert(input@.skip(0) =~= input@);
        }
        let (first, after_start) = match read_line(input, 0) {
            Ok(p) => p,
            Err(e) => {
                return Err(e);
            },
        };
        let start_line = match StartLine::parse(first.as_slice()) {
            Ok(sl) => sl,
            Err(e) => {
                return Err(e);
            },
        };
        let mut headers = HeaderMap::new();
        let mut pos: usize = after_start;
        let ghost rest0 = input@.skip(after_start as int);
        loop
            invariant
                pos <= input@.len(),
                headers.wf(),
                spec_parse_headers(rest0, Seq::empty()) == spec_parse_headers(
                    input@.skip(pos as int),
                    headers@,
                ),
                spec_parse_request(input@) == (match spec_parse_headers(rest0, Seq::empty()) {
                    Err(e) => Err::<(RequestV, int), ParseError>(e),
                    Ok((entries, rem)) => Ok(
                        (
                            RequestV {
                                start_line: start_line@,
                                headers: entries,
                                body: Seq::empty(),
                            },
                            input@.len() - rem.len(),
                        ),
                    ),
                }),
            decreases input@.len() - pos,
        {
            let (line, next) = match read_line(input, pos) {
                Ok(p) => p,
                Err(e) => {
                    return Err(e);
                },
            };
            if line.len() == 0 {
                proof {
                    assert(input@.len() - input@.skip(next as int).len() == next);
                }
                return Ok((Request { start_line, headers, body: Vec::new() }, next));
            }
            let ci = match find_colon_space_in(line.as_slice()) {
                None => {
                    return Err(ParseError::MalformedHeaderLine);
                },
                Some(ci) => ci,
            };
            let name = to_lowercase(slice_subrange(line.as_slice(), 0, ci));
            let value = slice_to_vec(slice_subrange(line.as_slice(), ci + 2, line.len()));
            proof {
                assert(name@ =~= lowercase_of(line@.take(ci as int)));
                assert(value@ =~= line@.skip(ci + 2));
            }
            headers.insert(name, value);
            pos = next;
        }
    }

    /// The same request carrying `body`.
    pub fn with_body(self, body: Vec<u8>) -> (r: Request)
        ensures
            r@.start_line == self@.start_line,
            r@.headers == self@.headers,
            r@.body == body@,
    {
        Request { start_line: self.start_line, headers: self.headers, body }
    }
}

/// Find the first `": "` in `v`.
pub fn find_colon_space_in(v: &[u8]) -> (r: Option<usize>)
    ensures
        match r {
            Some(i) => i + 2 <= v@.len() && find_colon_space(v@) == Some(i as int),
            None => find_colon_space(v@) == None::<int>,
        },
{
    let n = v.len();
    if n < 2 {
        return None;
    }
    let mut j: usize = 0;
    while j + 1 < n
        invariant
            0 <= j,
            n == v@.len(),
            j + 1 <= n,
            n >= 2,
            forall|k: int| 0 <= k < j ==> !(#[trigger] v@[k] == 0x3a && v@[k + 1] == 0x20),
        decreases v@.len() - j,
    {
        if v[j] == 0x3a && v[j + 1] == 0x20 {
            proof {
                lemma_find_colon_space_is(v@, j as int);
            }
            return Some(j);
        }
        j = j + 1;
    }
    proof {
        lemma_find_colon_space(v@);
        match find_colon_space(v@) {
            Some(i) => {
                assert(!(v@[i] == 0x3a && v@[i + 1] == 0x20));
            },
            None => {},
        }
    }
    None
}

} // verus!
