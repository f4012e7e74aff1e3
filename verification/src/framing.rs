//! Writing the wire format of a response: status line, header lines, and
//! the blank line that separates headers from the body.
//!
//! Responses are framed into a byte buffer; the caller owns the transport
//! and sends the buffer as it stands.

use vstd::prelude::*;
use crate::text::{
    bytes_of,
    dec_digits,
    nat_of_dec,
    push_str_bytes,
    push_dec,
    lemma_dec_digits_value,
    lemma_dec_digits_are_digits,
};

verus! {

/// The line terminator of the wire format: carriage return, line feed.
pub open spec fn crlf() -> Seq<u8> {
    seq![13u8, 10u8]
}

/// The status line for a known status code. Only 200 and 404 are ever
/// produced.
pub open spec fn spec_status_line(code: u16) -> Seq<u8>
    recommends
        code == 200 || code == 404,
{
    if code == 200 {
        bytes_of("HTTP/1.1 200 OK\r\n"@)
    } else {
        bytes_of("HTTP/1.1 404 Not Found\r\n"@)
    }
}

/// One header line: name, a colon and a space, the value, CRLF.
pub open spec fn spec_header(name: Seq<char>, value: Seq<char>) -> Seq<u8> {
    bytes_of(name) + bytes_of(": "@) + bytes_of(value) + crlf()
}

/// The Content-Length header line for a body of `n` bytes.
pub open spec fn spec_content_length_header(n: nat) -> Seq<u8> {
    bytes_of("Content-Length: "@) + dec_digits(n) + crlf()
}

/// The complete head of a response that carries a body: status 200, the
/// content type, the exact byte count of the body, and the blank line.
pub open spec fn spec_file_head(mime: Seq<char>, len: nat) -> Seq<u8> {
    spec_status_line(200) + spec_header("Content-Type"@, mime) + spec_content_length_header(len)
        + crlf()
}

/// The complete 404 response: status line, no headers, no body.
pub open spec fn spec_not_found_response() -> Seq<u8> {
    spec_status_line(404) + crlf()
}

/// The complete 200 response for a body: head declaring the body's exact
/// length, then the body bytes verbatim.
pub open spec fn spec_response_200(mime: Seq<char>, body: Seq<u8>) -> Seq<u8> {
    spec_file_head(mime, body.len()) + body
}

/// Appends the status line for `code` to `out`.
pub fn start_response(out: &mut Vec<u8>, code: u16)
    requires
        code == 200 || code == 404,
    ensures
        final(out)@ == old(out)@ + spec_status_line(code),
{
    if code == 200 {
        proof {
            reveal_strlit("HTTP/1.1 200 OK\r\n");
        }
        push_str_bytes(out, "HTTP/1.1 200 OK\r\n");
    } else {
        proof {
            reveal_strlit("HTTP/1.1 404 Not Found\r\n");
        }
        push_str_bytes(out, "HTTP/1.1 404 Not Found\r\n");
    }
}

/// The bytes of the "\r\n" literal are the CRLF pair.
proof fn lemma_crlf_bytes()
    ensures
        bytes_of("\r\n"@) == crlf(),
        "\r\n".is_ascii(),
{
    reveal_strlit("\r\n");
    assert(bytes_of("\r\n"@) =~= crlf());
}

/// Appends the header line "`name`: `value`" to `out`.
pub fn send_header(out: &mut Vec<u8>, name: &str, value: &str)
    requires
        name.is_ascii(),
        value.is_ascii(),
    ensures
        final(out)@ == old(out)@ + spec_header(name@, value@),
{
    proof {
        reveal_strlit(": ");
        lemma_crlf_bytes();
    }
    push_str_bytes(out, name);
    push_str_bytes(out, ": ");
    push_str_bytes(out, value);
    push_str_bytes(out, "\r\n");
    proof {
        assert(out@ =~= old(out)@ + spec_header(name@, value@));
    }
}

/// Appends the Content-Length header line for a body of `n` bytes.
pub fn send_content_length(out: &mut Vec<u8>, n: u64)
    ensures
        final(out)@ == old(out)@ + spec_content_length_header(n as nat),
{
    proof {
        reveal_strlit("Content-Length: ");
        lemma_crlf_bytes();
    }
    push_str_bytes(out, "Content-Length: ");
    push_dec(out, n);
    push_str_bytes(out, "\r\n");
    proof {
        assert(out@ =~= old(out)@ + spec_content_length_header(n as nat));
    }
}

/// Appends the blank line that ends the header block; after it only body
/// bytes may follow.
pub fn end_headers(out: &mut Vec<u8>)
    ensures
        final(out)@ == old(out)@ + crlf(),
{
    proof {
        lemma_crlf_bytes();
    }
    push_str_bytes(out, "\r\n");
}

/// Builds the head of a 200 response for a body of `len` bytes of type
/// `mime`.
pub fn file_head(mime: &str, len: u64) -> (r: Vec<u8>)
    requires
        mime.is_ascii(),
    ensures
        r@ == spec_file_head(mime@, len as nat),
{
    proof {
        reveal_strlit("Content-Type");
    }
    let mut out: Vec<u8> = Vec::new();
    start_response(&mut out, 200);
    send_header(&mut out, "Content-Type", mime);
    send_content_length(&mut out, len);
    end_headers(&mut out);
    proof {
        assert(out@ =~= spec_file_head(mime@, len as nat));
    }
    out
}

/// Builds the complete 404 response; its body is empty.
pub fn not_found_response() -> (r: Vec<u8>)
    ensures
        r@ == spec_not_found_response(),
{
    let mut out: Vec<u8> = Vec::new();
    start_response(&mut out, 404);
    end_headers(&mut out);
    proof {
        assert(out@ =~= spec_not_found_response());
    }
    out
}

/// Content-Length is an exact byte count: the head of a 200 response
/// declares the body's length as a string of ASCII digits that denote
/// precisely the number of body bytes that follow the head, and the
/// bytes after the head are the body verbatim.
pub proof fn lemma_content_length_exact(mime: Seq<char>, body: Seq<u8>)
    ensures
        nat_of_dec(dec_digits(body.len())) == body.len(),
        forall|i: int| 0 <= i < dec_digits(body.len()).len() ==> 48
            <= #[trigger] dec_digits(body.len())[i] <= 57,
        spec_response_200(mime, body).skip(spec_file_head(mime, body.len()).len() as int) == body,
        spec_response_200(mime, body).take(spec_file_head(mime, body.len()).len() as int)
            == spec_file_head(mime, body.len()),
{
    lemma_dec_digits_value(body.len());
    lemma_dec_digits_are_digits(body.len());
    assert(spec_response_200(mime, body).skip(spec_file_head(mime, body.len()).len() as int)
        =~= body);
    assert(spec_response_200(mime, body).take(spec_file_head(mime, body.len()).len() as int)
        =~= spec_file_head(mime, body.len()));
}

} // verus!
