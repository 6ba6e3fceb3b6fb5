//! The response side of the wire codec: a structured response and its exact
//! wire form. Serialization emits the status line, `\r\n`, each header entry
//! in order as `<Name>: <Value>\r\n`, one empty line, then the raw body, with
//! no terminator after the body.
use vstd::prelude::*;

use crate::bytes::{dec_of, dec_val, find_byte, lemma_find_byte, usize_to_dec};
use crate::headers::{HeaderMap, insert_entry};
use crate::tokens::{
    colon_space, colon_space_bytes, crlf, crlf_bytes, h_content_length, h_content_length_bytes,
    h_content_type, http_version_prefix, http_version_prefix_bytes,
};
use vstd::slice::slice_to_vec;

verus! {

/// A status line: HTTP version, status code and reason phrase.
pub ghost struct StatusV {
    pub version: Seq<u8>,
    pub code: int,
    pub reason: Seq<u8>,
}

/// The status of a response; handlers construct one of (200, OK),
/// (201, Created) or (404, Not Found).
pub struct Status {
    pub version: Vec<u8>,
    pub status_code: i16,
    pub status: Vec<u8>,
}

impl View for Status {
    type V = StatusV;

    open spec fn view(&self) -> StatusV {
        StatusV { version: self.version@, code: self.status_code as int, reason: self.status@ }
    }
}

/// The wire form of a status line: `HTTP/<version> <code> <reason>`, without
/// a terminator.
pub open spec fn spec_status_line(st: StatusV) -> Seq<u8> {
    http_version_prefix() + st.version + seq![0x20u8] + dec_of(st.code as nat) + seq![0x20u8]
        + st.reason
}

/// The wire form of one header entry: `<Name>: <Value>\r\n`.
pub open spec fn spec_header_entry(e: (Seq<u8>, Seq<u8>)) -> Seq<u8> {
    e.0 + colon_space() + e.1 + crlf()
}

/// The wire form of a run of header entries, in entry order.
pub open spec fn spec_header_block(entries: Seq<(Seq<u8>, Seq<u8>)>) -> Seq<u8>
    decreases entries.len(),
{
    if entries.len() == 0 {
        Seq::empty()
    } else {
        spec_header_block(entries.drop_last()) + spec_header_entry(entries.last())
    }
}

/// A parsed-side response: status, headers in their stored casing, body.
pub ghost struct ResponseV {
    pub status: StatusV,
    pub headers: Seq<(Seq<u8>, Seq<u8>)>,
    pub body: Seq<u8>,
}

/// The full wire form of a response.
pub open spec fn spec_serialize(r: ResponseV) -> Seq<u8> {
    spec_status_line(r.status) + crlf() + spec_header_block(r.headers) + crlf() + r.body
}

/// One response: status, headers in the casing their writers chose, body.
pub struct Response {
    pub status: Status,
    pub headers: HeaderMap,
    pub body: Vec<u8>,
}

impl View for Response {
    type V = ResponseV;

    open spec fn view(&self) -> ResponseV {
        ResponseV { status: self.status@, headers: self.headers@, body: self.body@ }
    }
}

impl Status {
    /// The wire form of this status line.
    pub fn to_bytes(&self) -> (r: Vec<u8>)
        requires
            0 <= self.status_code,
        ensures
            r@ == spec_status_line(self@),
    {
        let mut buf = http_version_prefix_bytes();
        buf.extend_from_slice(self.version.as_slice());
        buf.push(0x20);
        let code = usize_to_dec(self.status_code as usize);
        buf.extend_from_slice(code.as_slice());
        buf.push(0x20);
        buf.extend_from_slice(self.status.as_slice());
        proof {
            assert(buf@ =~= spec_status_line(self@));
        }
        buf
    }
}

impl Response {
    /// The full wire form of this response.
    pub fn to_bytes(&self) -> (r: Vec<u8>)
        requires
            0 <= self.status.status_code,
        ensures
            r@ == spec_serialize(self@),
    {
        let mut buf = self.status.to_bytes();
        buf.extend_from_slice(crlf_bytes().as_slice());
        let mut i: usize = 0;
        while i < self.headers.items.len()
            invariant
                0 <= i <= self.headers.items@.len(),
                0 <= self.status.status_code,
                buf@ == spec_status_line(self.status@) + crlf() + spec_header_block(
                    self.headers@.take(i as int),
                ),
            decreases self.headers.items@.len() - i,
        {
            buf.extend_from_slice(self.headers.items[i].0.as_slice());
            buf.extend_from_slice(colon_space_bytes().as_slice());
            buf.extend_from_slice(self.headers.items[i].1.as_slice());
            buf.extend_from_slice(crlf_bytes().as_slice());
            proof {
                let e = self.headers@;
                assert(e.take(i + 1).drop_last() =~= e.take(i as int));
                assert(e.take(i + 1).last() == e[i as int]);
                assert(buf@ =~= spec_status_line(self.status@) + crlf() + spec_header_block(
                    e.take(i + 1),
                ));
            }
            i = i + 1;
        }
        proof {
            assert(self.headers@.take(self.headers@.len() as int) =~= self.headers@);
        }
        buf.extend_from_slice(crlf_bytes().as_slice());
        buf.extend_from_slice(self.body.as_slice());
        proof {
            assert(buf@ =~= spec_serialize(self@));
        }
        buf
    }

    /// This response carrying `body`, with `Content-Type` set to
    /// `content_type` and `Content-Length` to the body's length in decimal.
    pub fn with_body(self, content_type: &[u8], body: Vec<u8>) -> (r: Response)
        ensures
            r@.status == self@.status,
            r@.headers == insert_entry(
                insert_entry(self@.headers, h_content_type(), content_type@),
                h_content_length(),
                dec_of(body@.len()),
            ),
            r@.body == body@,
            self.headers.wf() ==> r.headers.wf(),
    {
        let mut headers = self.headers;
        headers.insert(crate::tokens::h_content_type_bytes(), slice_to_vec(content_type));
        headers.insert(h_content_length_bytes(), usize_to_dec(body.len()));
        Response { status: self.status, headers, body }
    }
}

/// Read a status line back: `HTTP/<version> <code> <reason>`, splitting at
/// the first two spaces, the code read as decimal digits.
pub open spec fn spec_parse_status_line(line: Seq<u8>) -> Option<StatusV> {
    if http_version_prefix().is_prefix_of(line) {
        let rest = line.skip(5);
        match find_byte(rest, 0x20) {
            None => None,
            Some(i) => {
                let rest2 = rest.skip(i + 1);
                match find_byte(rest2, 0x20) {
                    None => None,
                    Some(j) => Some(
                        StatusV {
                            version: rest.take(i),
                            code: dec_val(rest2.take(j)) as int,
                            reason: rest2.skip(j + 1),
                        },
                    ),
                }
            },
        }
    } else {
        None
    }
}

/// Read a response's header lines back, in line order and without case
/// folding, up to the empty line; the remainder is the body.
pub open spec fn spec_parse_response_headers(s: Seq<u8>) -> Option<
    (Seq<(Seq<u8>, Seq<u8>)>, Seq<u8>),
>
    decreases s.len(),
    via spec_parse_response_headers_decreases
{
    match crate::request::spec_line(s) {
        Err(_) => None,
        Ok((line, rest)) => if line.len() == 0 {
            Some((Seq::empty(), rest))
        } else {
            match crate::request::find_colon_space(line) {
                None => None,
                Some(i) => match spec_parse_response_headers(rest) {
                    None => None,
                    Some((entries, body)) => Some(
                        (seq![(line.take(i), line.skip(i + 2))] + entries, body),
                    ),
                },
            }
        },
    }
}

#[via_fn]
proof fn spec_parse_response_headers_decreases(s: Seq<u8>) {
    match find_byte(s, 0x0a) {
        Some(i) => {
            lemma_find_byte(s, 0x0a);
        },
        None => {},
    }
}

/// Read a whole response back: status line, header lines to the empty line,
/// then the body as everything that remains.
pub open spec fn spec_parse_response(s: Seq<u8>) -> Option<ResponseV> {
    match crate::request::spec_line(s) {
        Err(_) => None,
        Ok((line, rest)) => match spec_parse_status_line(line) {
            None => None,
            Some(st) => match spec_parse_response_headers(rest) {
                None => None,
                Some((entries, body)) => Some(ResponseV { status: st, headers: entries, body }),
            },
        },
    }
}

/// One header entry in a shape the wire preserves: no line feed in name or
/// value, and no `": "` inside the name, so the first separator found is the
/// one written.
pub open spec fn entry_wire_wf(e: (Seq<u8>, Seq<u8>)) -> bool {
    &&& find_byte(e.0, 0x0a) is None
    &&& find_byte(e.1, 0x0a) is None
    &&& crate::request::find_colon_space(e.0) is None
}

/// A response in a shape the wire preserves: a non-negative code, no space
/// or line feed in the version, no line feed in the reason, and every header
/// entry well formed. Every response this library constructs satisfies it.
pub open spec fn spec_wire_wf(r: ResponseV) -> bool {
    &&& 0 <= r.status.code
    &&& find_byte(r.status.version, 0x20) is None
    &&& find_byte(r.status.version, 0x0a) is None
    &&& find_byte(r.status.reason, 0x0a) is None
    &&& forall|i: int| 0 <= i < r.headers.len() ==> entry_wire_wf(#[trigger] r.headers[i])
}

} // verus!
