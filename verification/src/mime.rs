//! Extension-based content-type lookup.

use vstd::prelude::*;
use crate::text::bytes_of;

verus! {

/// `s` ends with the byte sequence `suffix`.
pub open spec fn ends_with(s: Seq<u8>, suffix: Seq<u8>) -> bool {
    s.len() >= suffix.len() && s.skip(s.len() - suffix.len()) == suffix
}

/// The content type that the extension of `path` selects; paths with an
/// unknown or missing extension fall back to "application/octet-stream".
pub open spec fn mime_of(path: Seq<u8>) -> Seq<char> {
    if ends_with(path, bytes_of(".html"@)) {
        "text/html"@
    } else if ends_with(path, bytes_of(".htm"@)) {
        "text/html"@
    } else if ends_with(path, bytes_of(".css"@)) {
        "text/css"@
    } else if ends_with(path, bytes_of(".js"@)) {
        "application/javascript"@
    } else if ends_with(path, bytes_of(".png"@)) {
        "image/png"@
    } else if ends_with(path, bytes_of(".jpg"@)) {
        "image/jpeg"@
    } else if ends_with(path, bytes_of(".jpeg"@)) {
        "image/jpeg"@
    } else if ends_with(path, bytes_of(".gif"@)) {
        "image/gif"@
    } else if ends_with(path, bytes_of(".txt"@)) {
        "text/plain"@
    } else if ends_with(path, bytes_of(".pdf"@)) {
        "application/pdf"@
    } else {
        "application/octet-stream"@
    }
}

/// `path` ends with the ASCII string `suffix`.
fn has_suffix(path: &Vec<u8>, suffix: &str) -> (r: bool)
    requires
        suffix.is_ascii(),
    ensures
        r == ends_with(path@, bytes_of(suffix@)),
{
    proof {
        broadcast use vstd::string::is_ascii_spec_bytes;
    }
    let m: &[u8] = suffix.as_bytes();
    assert(m@ =~= bytes_of(suffix@));
    let sl: usize = m.len();
    let pl: usize = path.len();
    if pl < sl {
        return false;
    }
    let off: usize = pl - sl;
    let mut i: usize = 0;
    while i < sl
        invariant
            i <= sl,
            sl == m@.len(),
            m@ == bytes_of(suffix@),
            off == pl - sl,
            pl == path@.len(),
            sl <= pl,
            forall|j: int| 0 <= j < i ==> path@[off + j] == m@[j],
        decreases sl - i,
    {
        if path[off + i] != m[i] {
            proof {
                assert(path@.skip(off as int)[i as int] == path@[off + i]);
            }
            return false;
        }
        i = i + 1;
    }
    proof {
        assert(path@.skip(off as int) =~= m@);
    }
    true
}

/// Resolves the content type for `path` from its extension.
pub fn get_mime_type(path: &Vec<u8>) -> (r: &'static str)
    ensures
        r@ == mime_of(path@),
        r.is_ascii(),
{
    proof {
        reveal_strlit(".html");
        reveal_strlit(".htm");
        reveal_strlit(".css");
        reveal_strlit(".js");
        reveal_strlit(".png");
        reveal_strlit(".jpg");
        reveal_strlit(".jpeg");
        reveal_strlit(".gif");
        reveal_strlit(".txt");
        reveal_strlit(".pdf");
        reveal_strlit("text/html");
        reveal_strlit("text/css");
        reveal_strlit("application/javascript");
        reveal_strlit("image/png");
        reveal_strlit("image/jpeg");
        reveal_strlit("image/gif");
        reveal_strlit("text/plain");
        reveal_strlit("application/pdf");
        reveal_strlit("application/octet-stream");
    }
    if has_suffix(path, ".html") {
        "text/html"
    } else if has_suffix(path, ".htm") {
        "text/html"
    } else if has_suffix(path, ".css") {
        "text/css"
    } else if has_suffix(path, ".js") {
        "application/javascript"
    } else if has_suffix(path, ".png") {
        "image/png"
    } else if has_suffix(path, ".jpg") {
        "image/jpeg"
    } else if has_suffix(path, ".jpeg") {
        "image/jpeg"
    } else if has_suffix(path, ".gif") {
        "image/gif"
    } else if has_suffix(path, ".txt") {
        "text/plain"
    } else if has_suffix(path, ".pdf") {
        "application/pdf"
    } else {
        "application/octet-stream"
    }
}

} // verus!
