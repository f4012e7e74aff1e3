//! Deciding how to answer a GET request, and building the responses.
//!
//! The raw request path is joined onto the serving root; what the
//! filesystem says of the joined path is handed in as a plain value, and
//! the decision comes back as a plan: serve the file, look for an index
//! document inside the directory, answer 404, or answer nothing.

use vstd::prelude::*;
use crate::text::{bytes_of, push_str_bytes};
use crate::scan::{push_bytes, copy_range};
use crate::mime::{mime_of, ends_with, get_mime_type};
use crate::framing::{
    spec_file_head,
    spec_status_line,
    spec_response_200,
    file_head,
    lemma_content_length_exact,
};
use crate::listing::{ListEntry, spec_listing, render_listing};

verus! {

/// What the filesystem says of a path: nothing there, a directory, a
/// regular file, some other kind of entry, or a query that failed.
pub enum FsNode {
    Missing,
    Dir,
    File,
    OtherKind,
    Error,
}

/// How to answer a GET request.
pub enum Plan {
    /// Serve the regular file at `path`: 200, its content type and size,
    /// then its bytes.
    ServeFile { path: Vec<u8> },
    /// The path is a directory: look for its index document at
    /// `index_path`; serve it if it exists, else render the listing.
    CheckIndex { index_path: Vec<u8> },
    /// Nothing at the path: answer 404 with an empty body.
    NotFound,
    /// A failed query or an entry of another kind: answer nothing; the
    /// connection stays open for the next request.
    Ignore,
}

/// The name of the index document inside a directory.
pub open spec fn index_suffix() -> Seq<char> {
    "/index.html"@
}

/// Joins the raw request path onto the serving root.
pub fn join_path(root: &Vec<u8>, raw: &Vec<u8>) -> (r: Vec<u8>)
    ensures
        r@ == root@ + raw@,
{
    let mut out = copy_range(root, 0, root.len());
    push_bytes(&mut out, raw);
    proof {
        assert(out@ =~= root@ + raw@);
    }
    out
}

/// The path of the index document inside directory `dir`.
pub fn format_index(dir: &Vec<u8>) -> (r: Vec<u8>)
    ensures
        r@ == dir@ + bytes_of(index_suffix()),
{
    proof {
        reveal_strlit("/index.html");
    }
    let mut out = copy_range(dir, 0, dir.len());
    push_str_bytes(&mut out, "/index.html");
    out
}

/// Decides how to answer a GET for `path`, given what the filesystem
/// says of it.
pub fn plan_for(path: &Vec<u8>, node: &FsNode) -> (r: Plan)
    ensures
        *node is Missing ==> r is NotFound,
        *node is Dir ==> r is CheckIndex && r->index_path@ == path@ + bytes_of(index_suffix()),
        *node is File ==> r is ServeFile && r->path@ == path@,
        *node is OtherKind || *node is Error ==> r is Ignore,
{
    match node {
        FsNode::Missing => Plan::NotFound,
        FsNode::Dir => Plan::CheckIndex { index_path: format_index(path) },
        FsNode::File => Plan::ServeFile { path: copy_range(path, 0, path.len()) },
        FsNode::OtherKind => Plan::Ignore,
        FsNode::Error => Plan::Ignore,
    }
}

/// Builds the head of the response that serves the file at `path`, whose
/// size at open time is `size`: status 200, the content type resolved
/// from the path, and `size` as the exact Content-Length. The file's
/// bytes follow the head on the wire.
pub fn response_file_head(path: &Vec<u8>, size: u64) -> (r: Vec<u8>)
    ensures
        r@ == spec_file_head(mime_of(path@), size as nat),
{
    let mime = get_mime_type(path);
    file_head(mime, size)
}

/// Builds the complete response that serves `body` as the file at
/// `path`: the head for the body's exact length, then the body verbatim.
pub fn response_file_bytes(path: &Vec<u8>, body: &Vec<u8>) -> (r: Vec<u8>)
    ensures
        r@ == spec_response_200(mime_of(path@), body@),
{
    let mut out = response_file_head(path, body.len() as u64);
    push_bytes(&mut out, body);
    proof {
        assert(out@ =~= spec_response_200(mime_of(path@), body@));
    }
    out
}

/// Builds the complete response for a directory without an index
/// document: 200, content type "text/html", and the listing document as
/// the body, with its exact length declared.
pub fn response_listing(dir: &Vec<u8>, entries: &Vec<ListEntry>) -> (r: Vec<u8>)
    ensures
        r@ == spec_response_200("text/html"@, spec_listing(dir@, entries@)),
{
    proof {
        reveal_strlit("text/html");
    }
    let body = render_listing(dir, entries);
    let mut out = file_head("text/html", body.len() as u64);
    push_bytes(&mut out, &body);
    proof {
        assert(out@ =~= spec_response_200("text/html"@, spec_listing(dir@, entries@)));
    }
    out
}

/// A GET of an existing regular file round-trips the file: the response
/// opens with the 200 status line, its declared Content-Length digits
/// denote exactly the body's byte count, and the bytes after the head
/// are the file's bytes verbatim.
pub proof fn lemma_file_response_roundtrip(path: Seq<u8>, body: Seq<u8>)
    ensures
        spec_response_200(mime_of(path), body) == spec_file_head(mime_of(path), body.len())
            + body,
        spec_response_200(mime_of(path), body).take(spec_status_line(200).len() as int)
            == spec_status_line(200),
        crate::text::nat_of_dec(crate::text::dec_digits(body.len())) == body.len(),
        spec_response_200(mime_of(path), body).skip(
            spec_file_head(mime_of(path), body.len()).len() as int,
        ) == body,
{
    lemma_content_length_exact(mime_of(path), body);
    assert(spec_response_200(mime_of(path), body).take(spec_status_line(200).len() as int)
        =~= spec_status_line(200));
}

/// A directory with an index document answers exactly as a direct GET of
/// the index document itself: the joined paths coincide, and an index
/// document's content type is "text/html" either way.
pub proof fn lemma_index_same_as_direct(root: Seq<u8>, raw: Seq<u8>, body: Seq<u8>)
    ensures
        spec_response_200(mime_of((root + raw) + bytes_of(index_suffix())), body)
            == spec_response_200(mime_of(root + (raw + bytes_of(index_suffix()))), body),
        mime_of((root + raw) + bytes_of(index_suffix())) == "text/html"@,
{
    assert((root + raw) + bytes_of(index_suffix()) =~= root + (raw + bytes_of(index_suffix())));
    let joined = (root + raw) + bytes_of(index_suffix());
    reveal_strlit("/index.html");
    reveal_strlit(".html");
    assert(ends_with(joined, bytes_of(".html"@))) by {
        assert(joined.skip(joined.len() - 5) =~= bytes_of(".html"@));
    }
}

} // verus!
