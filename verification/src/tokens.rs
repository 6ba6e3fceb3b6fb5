//! The byte strings of the wire protocol and of the routing and header
//! rules, each as a spec-level sequence beside the function that builds it.
use vstd::prelude::*;

verus! {

/// The bytes of `"GET"`: the request method `GET`.
pub open spec fn method_get() -> Seq<u8> {
    seq![0x47u8, 0x45u8, 0x54u8]
}

/// Build the bytes of `"GET"`.
pub fn method_get_bytes() -> (r: Vec<u8>)
    ensures
        r@ == method_get(),
{
    let mut v: Vec<u8> = Vec::new();
    v.push(0x47);
    v.push(0x45);
    v.push(0x54);
    proof {
        assert(v@ =~= method_get());
    }
    v
}

/// The bytes of `"POST"`: the request method `POST`.
pub open spec fn method_post() -> Seq<u8> {
    seq![0x50u8, 0x4fu8, 0x53u8, 0x54u8]
}

/// Build the bytes of `"POST"`.
pub fn method_post_bytes() -> (r: Vec<u8>)
    ensures
        r@ == method_post(),
{
    let mut v: Vec<u8> = Vec::new();
    v.push(0x50);
    v.push(0x4f);
    v.push(0x53);
    v.push(0x54);
    proof {
        assert(v@ =~= method_post());
    }
    v
}

/// The bytes of `"/"`: the root path.
pub open spec fn path_root() -> Seq<u8> {
    seq![0x2fu8]
}

/// Build the bytes of `"/"`.
pub fn path_root_bytes() -> (r: Vec<u8>)
    ensures
        r@ == path_root(),
{
    let mut v: Vec<u8> = Vec::new();
    v.push(0x2f);
    proof {
        assert(v@ =~= path_root());
    }
    v
}

/// The bytes of `"/echo"`: the echo route prefix.
pub open spec fn echo_prefix() -> Seq<u8> {
    seq![0x2fu8, 0x65u8, 0x63u8, 0x68u8, 0x6fu8]
}

/// Build the bytes of `"/echo"`.
pub fn echo_prefix_bytes() -> (r: Vec<u8>)
    ensures
        r@ == echo_prefix(),
{
    let mut v: Vec<u8> = Vec::new();
    v.push(0x2f);
    v.push(0x65);
    v.push(0x63);
    v.push(0x68);
    v.push(0x6f);
    proof {
        assert(v@ =~= echo_prefix());
    }
    v
}

/// The bytes of `"/echo/"`: the echo route prefix with its trailing separator.
pub open spec fn echo_prefix_slash() -> Seq<u8> {
    seq![0x2fu8, 0x65u8, 0x63u8, 0x68u8, 0x6fu8, 0x2fu8]
}

/// The bytes of `"/user-agent"`: the user-agent route prefix.
pub open spec fn user_agent_prefix() -> Seq<u8> {
    seq![0x2fu8, 0x75u8, 0x73u8, 0x65u8, 0x72u8, 0x2du8, 0x61u8, 0x67u8, 0x65u8, 0x6eu8, 0x74u8]
}

/// Build the bytes of `"/user-agent"`.
pub fn user_agent_prefix_bytes() -> (r: Vec<u8>)
    ensures
        r@ == user_agent_prefix(),
{
    let mut v: Vec<u8> = Vec::new();
    v.push(0x2f);
    v.push(0x75);
    v.push(0x73);
    v.push(0x65);
    v.push(0x72);
    v.push(0x2d);
    v.push(0x61);
    v.push(0x67);
    v.push(0x65);
    v.push(0x6e);
    v.push(0x74);
    proof {
        assert(v@ =~= user_agent_prefix());
    }
    v
}

/// The bytes of `"/files"`: the files route prefix.
pub open spec fn files_prefix() -> Seq<u8> {
    seq![0x2fu8, 0x66u8, 0x69u8, 0x6cu8, 0x65u8, 0x73u8]
}

/// Build the bytes of `"/files"`.
pub fn files_prefix_bytes() -> (r: Vec<u8>)
    ensures
        r@ == files_prefix(),
{
    let mut v: Vec<u8> = Vec::new();
    v.push(0x2f);
    v.push(0x66);
    v.push(0x69);
    v.push(0x6c);
    v.push(0x65);
    v.push(0x73);
    proof {
        assert(v@ =~= files_prefix());
    }
    v
}

/// The bytes of `"/files/"`: the files route prefix with its trailing separator.
pub open spec fn files_prefix_slash() -> Seq<u8> {
    seq![0x2fu8, 0x66u8, 0x69u8, 0x6cu8, 0x65u8, 0x73u8, 0x2fu8]
}

/// Build the bytes of `"/files/"`.
pub fn files_prefix_slash_bytes() -> (r: Vec<u8>)
    ensures
        r@ == files_prefix_slash(),
{
    let mut v: Vec<u8> = Vec::new();
    v.push(0x2f);
    v.push(0x66);
    v.push(0x69);
    v.push(0x6c);
    v.push(0x65);
    v.push(0x73);
    v.push(0x2f);
    proof {
        assert(v@ =~= files_prefix_slash());
    }
    v
}

/// The bytes of `"HTTP"`: the protocol name in a version token.
pub open spec fn http_upper() -> Seq<u8> {
    seq![0x48u8, 0x54u8, 0x54u8, 0x50u8]
}

/// Build the bytes of `"HTTP"`.
pub fn http_upper_bytes() -> (r: Vec<u8>)
    ensures
        r@ == http_upper(),
{
    let mut v: Vec<u8> = Vec::new();
    v.push(0x48);
    v.push(0x54);
    v.push(0x54);
    v.push(0x50);
    proof {
        assert(v@ =~= http_upper());
    }
    v
}

/// The bytes of `"HTTP/"`: the prefix of a version token.
pub open spec fn http_version_prefix() -> Seq<u8> {
    seq![0x48u8, 0x54u8, 0x54u8, 0x50u8, 0x2fu8]
}

/// Build the bytes of `"HTTP/"`.
pub fn http_version_prefix_bytes() -> (r: Vec<u8>)
    ensures
        r@ == http_version_prefix(),
{
    let mut v: Vec<u8> = Vec::new();
    v.push(0x48);
    v.push(0x54);
    v.push(0x54);
    v.push(0x50);
    v.push(0x2f);
    proof {
        assert(v@ =~= http_version_prefix());
    }
    v
}

/// The bytes of `"\r\n"`: the line terminator.
pub open spec fn crlf() -> Seq<u8> {
    seq![0x0du8, 0x0au8]
}

/// Build the bytes of `"\r\n"`.
pub fn crlf_bytes() -> (r: Vec<u8>)
    ensures
        r@ == crlf(),
{
    let mut v: Vec<u8> = Vec::new();
    v.push(0x0d);
    v.push(0x0a);
    proof {
        assert(v@ =~= crlf());
    }
    v
}

/// The bytes of `": "`: the header name/value separator.
pub open spec fn colon_space() -> Seq<u8> {
    seq![0x3au8, 0x20u8]
}

/// Build the bytes of `": "`.
pub fn colon_space_bytes() -> (r: Vec<u8>)
    ensures
        r@ == colon_space(),
{
    let mut v: Vec<u8> = Vec::new();
    v.push(0x3a);
    v.push(0x20);
    proof {
        assert(v@ =~= colon_space());
    }
    v
}

/// The bytes of `"1.1"`: the HTTP version the handlers speak.
pub open spec fn version_11() -> Seq<u8> {
    seq![0x31u8, 0x2eu8, 0x31u8]
}

/// Build the bytes of `"1.1"`.
pub fn version_11_bytes() -> (r: Vec<u8>)
    ensures
        r@ == version_11(),
{
    let mut v: Vec<u8> = Vec::new();
    v.push(0x31);
    v.push(0x2e);
    v.push(0x31);
    proof {
        assert(v@ =~= version_11());
    }
    v
}

/// The bytes of `"OK"`: the reason phrase of status 200.
pub open spec fn reason_ok() -> Seq<u8> {
    seq![0x4fu8, 0x4bu8]
}

/// Build the bytes of `"OK"`.
pub fn reason_ok_bytes() -> (r: Vec<u8>)
    ensures
        r@ == reason_ok(),
{
    let mut v: Vec<u8> = Vec::new();
    v.push(0x4f);
    v.push(0x4b);
    proof {
        assert(v@ =~= reason_ok());
    }
    v
}

/// The bytes of `"Created"`: the reason phrase of status 201.
pub open spec fn reason_created() -> Seq<u8> {
    seq![0x43u8, 0x72u8, 0x65u8, 0x61u8, 0x74u8, 0x65u8, 0x64u8]
}

/// Build the bytes of `"Created"`.
pub fn reason_created_bytes() -> (r: Vec<u8>)
    ensures
        r@ == reason_created(),
{
    let mut v: Vec<u8> = Vec::new();
    v.push(0x43);
    v.push(0x72);
    v.push(0x65);
    v.push(0x61);
    v.push(0x74);
    v.push(0x65);
    v.push(0x64);
    proof {
        assert(v@ =~= reason_created());
    }
    v
}

/// The bytes of `"Not Found"`: the reason phrase of status 404.
pub open spec fn reason_not_found() -> Seq<u8> {
    seq![0x4eu8, 0x6fu8, 0x74u8, 0x20u8, 0x46u8, 0x6fu8, 0x75u8, 0x6eu8, 0x64u8]
}

/// Build the bytes of `"Not Found"`.
pub fn reason_not_found_bytes() -> (r: Vec<u8>)
    ensures
        r@ == reason_not_found(),
{
    let mut v: Vec<u8> = Vec::new();
    v.push(0x4e);
    v.push(0x6f);
    v.push(0x74);
    v.push(0x20);
    v.push(0x46);
    v.push(0x6f);
    v.push(0x75);
    v.push(0x6e);
    v.push(0x64);
    proof {
        assert(v@ =~= reason_not_found());
    }
    v
}

/// The bytes of `"Content-Type"`: the response header naming the body's media type.
pub open spec fn h_content_type() -> Seq<u8> {
    seq![0x43u8, 0x6fu8, 0x6eu8, 0x74u8, 0x65u8, 0x6eu8, 0x74u8, 0x2du8, 0x54u8, 0x79u8, 0x70u8, 0x65u8]
}

/// Build the bytes of `"Content-Type"`.
pub fn h_content_type_bytes() -> (r: Vec<u8>)
    ensures
        r@ == h_content_type(),
{
    let mut v: Vec<u8> = Vec::new();
    v.push(0x43);
    v.push(0x6f);
    v.push(0x6e);
    v.push(0x74);
    v.push(0x65);
    v.push(0x6e);
    v.push(0x74);
    v.push(0x2d);
    v.push(0x54);
    v.push(0x79);
    v.push(0x70);
    v.push(0x65);
    proof {
        assert(v@ =~= h_content_type());
    }
    v
}

/// The bytes of `"Content-Length"`: the response header naming the body's length.
pub open spec fn h_content_length() -> Seq<u8> {
    seq![0x43u8, 0x6fu8, 0x6eu8, 0x74u8, 0x65u8, 0x6eu8, 0x74u8, 0x2du8, 0x4cu8, 0x65u8, 0x6eu8, 0x67u8, 0x74u8, 0x68u8]
}

/// Build the bytes of `"Content-Length"`.
pub fn h_content_length_bytes() -> (r: Vec<u8>)
    ensures
        r@ == h_content_length(),
{
    let mut v: Vec<u8> = Vec::new();
    v.push(0x43);
    v.push(0x6f);
    v.push(0x6e);
    v.push(0x74);
    v.push(0x65);
    v.push(0x6e);
    v.push(0x74);
    v.push(0x2d);
    v.push(0x4c);
    v.push(0x65);
    v.push(0x6e);
    v.push(0x67);
    v.push(0x74);
    v.push(0x68);
    proof {
        assert(v@ =~= h_content_length());
    }
    v
}

/// The bytes of `"Content-Encoding"`: the response header naming the body's encoding.
pub open spec fn h_content_encoding() -> Seq<u8> {
    seq![0x43u8, 0x6fu8, 0x6eu8, 0x74u8, 0x65u8, 0x6eu8, 0x74u8, 0x2du8, 0x45u8, 0x6eu8, 0x63u8, 0x6fu8, 0x64u8, 0x69u8, 0x6eu8, 0x67u8]
}

/// Build the bytes of `"Content-Encoding"`.
pub fn h_content_encoding_bytes() -> (r: Vec<u8>)
    ensures
        r@ == h_content_encoding(),
{
    let mut v: Vec<u8> = Vec::new();
    v.push(0x43);
    v.push(0x6f);
    v.push(0x6e);
    v.push(0x74);
    v.push(0x65);
    v.push(0x6e);
    v.push(0x74);
    v.push(0x2d);
    v.push(0x45);
    v.push(0x6e);
    v.push(0x63);
    v.push(0x6f);
    v.push(0x64);
    v.push(0x69);
    v.push(0x6e);
    v.push(0x67);
    proof {
        assert(v@ =~= h_content_encoding());
    }
    v
}

/// The bytes of `"Connection"`: the response header carrying connection control.
pub open spec fn h_connection() -> Seq<u8> {
    seq![0x43u8, 0x6fu8, 0x6eu8, 0x6eu8, 0x65u8, 0x63u8, 0x74u8, 0x69u8, 0x6fu8, 0x6eu8]
}

/// Build the bytes of `"Connection"`.
pub fn h_connection_bytes() -> (r: Vec<u8>)
    ensures
        r@ == h_connection(),
{
    let mut v: Vec<u8> = Vec::new();
    v.push(0x43);
    v.push(0x6f);
    v.push(0x6e);
    v.push(0x6e);
    v.push(0x65);
    v.push(0x63);
    v.push(0x74);
    v.push(0x69);
    v.push(0x6f);
    v.push(0x6e);
    proof {
        assert(v@ =~= h_connection());
    }
    v
}

/// The bytes of `"user-agent"`: the lower-cased request header naming the client.
pub open spec fn hl_user_agent() -> Seq<u8> {
    seq![0x75u8, 0x73u8, 0x65u8, 0x72u8, 0x2du8, 0x61u8, 0x67u8, 0x65u8, 0x6eu8, 0x74u8]
}

/// Build the bytes of `"user-agent"`.
pub fn hl_user_agent_bytes() -> (r: Vec<u8>)
    ensures
        r@ == hl_user_agent(),
{
    let mut v: Vec<u8> = Vec::new();
    v.push(0x75);
    v.push(0x73);
    v.push(0x65);
    v.push(0x72);
    v.push(0x2d);
    v.push(0x61);
    v.push(0x67);
    v.push(0x65);
    v.push(0x6e);
    v.push(0x74);
    proof {
        assert(v@ =~= hl_user_agent());
    }
    v
}

/// The bytes of `"connection"`: the lower-cased request header carrying connection control.
pub open spec fn hl_connection() -> Seq<u8> {
    seq![0x63u8, 0x6fu8, 0x6eu8, 0x6eu8, 0x65u8, 0x63u8, 0x74u8, 0x69u8, 0x6fu8, 0x6eu8]
}

/// Build the bytes of `"connection"`.
pub fn hl_connection_bytes() -> (r: Vec<u8>)
    ensures
        r@ == hl_connection(),
{
    let mut v: Vec<u8> = Vec::new();
    v.push(0x63);
    v.push(0x6f);
    v.push(0x6e);
    v.push(0x6e);
    v.push(0x65);
    v.push(0x63);
    v.push(0x74);
    v.push(0x69);
    v.push(0x6f);
    v.push(0x6e);
    proof {
        assert(v@ =~= hl_connection());
    }
    v
}

/// The bytes of `"accept-encoding"`: the lower-cased request header listing accepted encodings.
pub open spec fn hl_accept_encoding() -> Seq<u8> {
    seq![0x61u8, 0x63u8, 0x63u8, 0x65u8, 0x70u8, 0x74u8, 0x2du8, 0x65u8, 0x6eu8, 0x63u8, 0x6fu8, 0x64u8, 0x69u8, 0x6eu8, 0x67u8]
}

/// Build the bytes of `"accept-encoding"`.
pub fn hl_accept_encoding_bytes() -> (r: Vec<u8>)
    ensures
        r@ == hl_accept_encoding(),
{
    let mut v: Vec<u8> = Vec::new();
    v.push(0x61);
    v.push(0x63);
    v.push(0x63);
    v.push(0x65);
    v.push(0x70);
    v.push(0x74);
    v.push(0x2d);
    v.push(0x65);
    v.push(0x6e);
    v.push(0x63);
    v.push(0x6f);
    v.push(0x64);
    v.push(0x69);
    v.push(0x6e);
    v.push(0x67);
    proof {
        assert(v@ =~= hl_accept_encoding());
    }
    v
}

/// The bytes of `"content-length"`: the lower-cased request header naming the body's length.
pub open spec fn hl_content_length() -> Seq<u8> {
    seq![0x63u8, 0x6fu8, 0x6eu8, 0x74u8, 0x65u8, 0x6eu8, 0x74u8, 0x2du8, 0x6cu8, 0x65u8, 0x6eu8, 0x67u8, 0x74u8, 0x68u8]
}

/// Build the bytes of `"content-length"`.
pub fn hl_content_length_bytes() -> (r: Vec<u8>)
    ensures
        r@ == hl_content_length(),
{
    let mut v: Vec<u8> = Vec::new();
    v.push(0x63);
    v.push(0x6f);
    v.push(0x6e);
    v.push(0x74);
    v.push(0x65);
    v.push(0x6e);
    v.push(0x74);
    v.push(0x2d);
    v.push(0x6c);
    v.push(0x65);
    v.push(0x6e);
    v.push(0x67);
    v.push(0x74);
    v.push(0x68);
    proof {
        assert(v@ =~= hl_content_length());
    }
    v
}

/// The bytes of `"close"`: the connection-control value that ends a connection.
pub open spec fn value_close() -> Seq<u8> {
    seq![0x63u8, 0x6cu8, 0x6fu8, 0x73u8, 0x65u8]
}

/// Build the bytes of `"close"`.
pub fn value_close_bytes() -> (r: Vec<u8>)
    ensures
        r@ == value_close(),
{
    let mut v: Vec<u8> = Vec::new();
    v.push(0x63);
    v.push(0x6c);
    v.push(0x6f);
    v.push(0x73);
    v.push(0x65);
    proof {
        assert(v@ =~= value_close());
    }
    v
}

/// The bytes of `"gzip"`: the gzip encoding token.
pub open spec fn token_gzip() -> Seq<u8> {
    seq![0x67u8, 0x7au8, 0x69u8, 0x70u8]
}

/// Build the bytes of `"gzip"`.
pub fn token_gzip_bytes() -> (r: Vec<u8>)
    ensures
        r@ == token_gzip(),
{
    let mut v: Vec<u8> = Vec::new();
    v.push(0x67);
    v.push(0x7a);
    v.push(0x69);
    v.push(0x70);
    proof {
        assert(v@ =~= token_gzip());
    }
    v
}

/// The bytes of `"text/plain"`: the media type of echoed text.
pub open spec fn ct_text_plain() -> Seq<u8> {
    seq![0x74u8, 0x65u8, 0x78u8, 0x74u8, 0x2fu8, 0x70u8, 0x6cu8, 0x61u8, 0x69u8, 0x6eu8]
}

/// Build the bytes of `"text/plain"`.
pub fn ct_text_plain_bytes() -> (r: Vec<u8>)
    ensures
        r@ == ct_text_plain(),
{
    let mut v: Vec<u8> = Vec::new();
    v.push(0x74);
    v.push(0x65);
    v.push(0x78);
    v.push(0x74);
    v.push(0x2f);
    v.push(0x70);
    v.push(0x6c);
    v.push(0x61);
    v.push(0x69);
    v.push(0x6e);
    proof {
        assert(v@ =~= ct_text_plain());
    }
    v
}

/// The bytes of `"application/octet-stream"`: the media type of served files.
pub open spec fn ct_octet_stream() -> Seq<u8> {
    seq![0x61u8, 0x70u8, 0x70u8, 0x6cu8, 0x69u8, 0x63u8, 0x61u8, 0x74u8, 0x69u8, 0x6fu8, 0x6eu8, 0x2fu8, 0x6fu8, 0x63u8, 0x74u8, 0x65u8, 0x74u8, 0x2du8, 0x73u8, 0x74u8, 0x72u8, 0x65u8, 0x61u8, 0x6du8]
}

/// Build the bytes of `"application/octet-stream"`.
pub fn ct_octet_stream_bytes() -> (r: Vec<u8>)
    ensures
        r@ == ct_octet_stream(),
{
    let mut v: Vec<u8> = Vec::new();
    v.push(0x61);
    v.push(0x70);
    v.push(0x70);
    v.push(0x6c);
    v.push(0x69);
    v.push(0x63);
    v.push(0x61);
    v.push(0x74);
    v.push(0x69);
    v.push(0x6f);
    v.push(0x6e);
    v.push(0x2f);
    v.push(0x6f);
    v.push(0x63);
    v.push(0x74);
    v.push(0x65);
    v.push(0x74);
    v.push(0x2d);
    v.push(0x73);
    v.push(0x74);
    v.push(0x72);
    v.push(0x65);
    v.push(0x61);
    v.push(0x6d);
    proof {
        assert(v@ =~= ct_octet_stream());
    }
    v
}

} // verus!
