//! Rendering the HTML listing of a directory without an index document.

use vstd::prelude::*;
use crate::text::{bytes_of, push_str_bytes};
use crate::scan::{
    contains_sub,
    is_match_at,
    push_bytes,
    copy_range,
    lemma_contains_left,
    lemma_contains_right,
};

verus! {

/// One entry of a directory, as the filesystem enumerates it: the path
/// under the serving root and the bare file name, both as bytes.
pub struct ListEntry {
    pub path: Vec<u8>,
    pub name: Vec<u8>,
}

/// One anchor of the listing: its target and its text.
pub open spec fn spec_href(path: Seq<u8>, name: Seq<u8>) -> Seq<u8> {
    bytes_of("<a href=\""@) + path + bytes_of("\">"@) + name + bytes_of("</a>\n"@)
}

/// The anchors of the entries, in enumeration order.
pub open spec fn spec_hrefs(entries: Seq<ListEntry>) -> Seq<u8>
    decreases entries.len(),
{
    if entries.len() == 0 {
        Seq::empty()
    } else {
        spec_hrefs(entries.drop_last()) + spec_href(
            entries.last().path@,
            entries.last().name@,
        )
    }
}

/// The opening of the listing document.
pub open spec fn listing_prologue() -> Seq<char> {
    "<!DOCTYPE html>\n<html>\n<head>\n<meta charset=\"UTF-8\">\n</head>\n<body>\n"@
}

/// The close of the listing document.
pub open spec fn listing_epilogue() -> Seq<char> {
    "\n</body>\n</html>\n"@
}

/// The listing document of directory `dir`: a parent link, a self link,
/// and one anchor per entry in enumeration order.
pub open spec fn spec_listing(dir: Seq<u8>, entries: Seq<ListEntry>) -> Seq<u8> {
    bytes_of(listing_prologue()) + spec_href(dir + bytes_of("/../"@), bytes_of(".."@))
        + spec_href(dir, bytes_of("."@)) + spec_hrefs(entries) + bytes_of(listing_epilogue())
}

/// Appends the anchor for `path` with text `name` to `out`.
pub fn format_href(out: &mut Vec<u8>, path: &Vec<u8>, name: &Vec<u8>)
    ensures
        final(out)@ == old(out)@ + spec_href(path@, name@),
{
    proof {
        reveal_strlit("<a href=\"");
        reveal_strlit("\">");
        reveal_strlit("</a>\n");
    }
    push_str_bytes(out, "<a href=\"");
    push_bytes(out, path);
    push_str_bytes(out, "\">");
    push_bytes(out, name);
    push_str_bytes(out, "</a>\n");
    proof {
        assert(out@ =~= old(out)@ + spec_href(path@, name@));
    }
}

/// Renders the listing document of `dir` over its entries.
pub fn render_listing(dir: &Vec<u8>, entries: &Vec<ListEntry>) -> (r: Vec<u8>)
    ensures
        r@ == spec_listing(dir@, entries@),
{
    proof {
        reveal_strlit("<!DOCTYPE html>\n<html>\n<head>\n<meta charset=\"UTF-8\">\n</head>\n<body>\n");
        reveal_strlit("\n</body>\n</html>\n");
        reveal_strlit("/../");
        reveal_strlit("..");
        reveal_strlit(".");
    }
    let mut out: Vec<u8> = Vec::new();
    push_str_bytes(
        &mut out,
        "<!DOCTYPE html>\n<html>\n<head>\n<meta charset=\"UTF-8\">\n</head>\n<body>\n",
    );
    let mut parent = copy_range(dir, 0, dir.len());
    push_str_bytes(&mut parent, "/../");
    let mut dots: Vec<u8> = Vec::new();
    push_str_bytes(&mut dots, "..");
    let mut dot: Vec<u8> = Vec::new();
    push_str_bytes(&mut dot, ".");
    format_href(&mut out, &parent, &dots);
    format_href(&mut out, dir, &dot);
    let ghost prefix = out@;
    let n: usize = entries.len();
    let mut i: usize = 0;
    while i < n
        invariant
            i <= n,
            n == entries@.len(),
            out@ == prefix + spec_hrefs(entries@.take(i as int)),
        decreases n - i,
    {
        let e = &entries[i];
        format_href(&mut out, &e.path, &e.name);
        i = i + 1;
        proof {
            assert(entries@.take(i as int).drop_last() =~= entries@.take(i - 1));
            assert(entries@.take(i as int).last() == entries@[i - 1]);
            assert(out@ =~= prefix + spec_hrefs(entries@.take(i as int)));
        }
    }
    push_str_bytes(&mut out, "\n</body>\n</html>\n");
    proof {
        assert(entries@.take(n as int) =~= entries@);
        assert(out@ =~= spec_listing(dir@, entries@));
    }
    out
}

/// Every byte sequence occurs in itself.
proof fn lemma_contains_self(s: Seq<u8>)
    ensures
        contains_sub(s, s),
{
    assert(s.subrange(0, s.len() as int) =~= s);
    assert(is_match_at(s, s, 0));
}

/// The anchors of the entries hold the anchor of each entry.
proof fn lemma_hrefs_contains(entries: Seq<ListEntry>, k: int)
    requires
        0 <= k < entries.len(),
    ensures
        contains_sub(spec_hrefs(entries), spec_href(entries[k].path@, entries[k].name@)),
    decreases entries.len(),
{
    let last = spec_href(entries.last().path@, entries.last().name@);
    if k == entries.len() - 1 {
        lemma_contains_self(last);
        lemma_contains_right(spec_hrefs(entries.drop_last()), last, last);
    } else {
        lemma_hrefs_contains(entries.drop_last(), k);
        lemma_contains_left(
            spec_hrefs(entries.drop_last()),
            last,
            spec_href(entries[k].path@, entries[k].name@),
        );
    }
}

/// The listing document links every direct child of the directory, and
/// links the parent directory.
pub proof fn lemma_listing_links(dir: Seq<u8>, entries: Seq<ListEntry>)
    ensures
        forall|k: int| 0 <= k < entries.len() ==> contains_sub(
            spec_listing(dir, entries),
            spec_href(entries[k].path@, entries[k].name@),
        ),
        contains_sub(spec_listing(dir, entries), spec_href(dir + bytes_of("/../"@), bytes_of(".."@))),
{
    let a = bytes_of(listing_prologue());
    let p = spec_href(dir + bytes_of("/../"@), bytes_of(".."@));
    let s = spec_href(dir, bytes_of("."@));
    let h = spec_hrefs(entries);
    let e = bytes_of(listing_epilogue());
    lemma_contains_self(p);
    lemma_contains_right(a, p, p);
    lemma_contains_left(a + p, s, p);
    lemma_contains_left(a + p + s, h, p);
    lemma_contains_left(a + p + s + h, e, p);
    assert forall|k: int| 0 <= k < entries.len() implies contains_sub(
        spec_listing(dir, entries),
        spec_href(entries[k].path@, entries[k].name@),
    ) by {
        let x = spec_href(entries[k].path@, entries[k].name@);
        lemma_hrefs_contains(entries, k);
        lemma_contains_right(a + p + s, h, x);
        lemma_contains_left(a + p + s + h, e, x);
    }
}

} // verus!
