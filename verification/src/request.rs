//! Parsing a request head out of the bytes received on a connection.
//!
//! A head is complete once an empty line arrives. Its first line must
//! split into method, path and version at the first two spaces; header
//! lines beyond it are consumed and ignored, so the stream stays framed
//! for the next request.

use vstd::prelude::*;
use crate::framing::crlf;
use crate::scan::{is_match_at, find_from, find_bytes, copy_range, lemma_find_from};

verus! {

/// A parsed request: the method and the raw path of the request line.
pub struct Request {
    pub method: Vec<u8>,
    pub path: Vec<u8>,
}

/// The terminator of a request head: the empty line after the header
/// block.
pub open spec fn head_terminator() -> Seq<u8> {
    crlf() + crlf()
}

/// The space byte, at which the request line splits.
pub open spec fn space() -> Seq<u8> {
    seq![32u8]
}

/// What parsing the bytes received so far yields.
pub enum SpecParse {
    /// No complete head has arrived yet.
    Incomplete,
    /// A head is complete but its request line does not split into a
    /// nonempty method, path and version.
    Malformed,
    /// A parsed request, and how many bytes of the buffer its head spans.
    Complete { method: Seq<u8>, path: Seq<u8>, consumed: int },
}

/// The request line split at its first two spaces into method, path and
/// version; nothing when a space is missing or a part is empty.
pub open spec fn spec_parse_line(line: Seq<u8>) -> Option<(Seq<u8>, Seq<u8>)> {
    match find_from(line, space(), 0) {
        Option::None => Option::None,
        Option::Some(a) => match find_from(line, space(), a + 1) {
            Option::None => Option::None,
            Option::Some(b) => if 0 < a && a + 1 < b && b + 1 < line.len() {
                Option::Some((line.take(a), line.subrange(a + 1, b)))
            } else {
                Option::None
            },
        },
    }
}

/// Parsing the received bytes: wait until a complete head has arrived,
/// then split its first line.
pub open spec fn spec_parse(s: Seq<u8>) -> SpecParse {
    match find_from(s, head_terminator(), 0) {
        Option::None => SpecParse::Incomplete,
        Option::Some(t) => {
            let e = find_from(s, crlf(), 0).unwrap();
            match spec_parse_line(s.take(e)) {
                Option::None => SpecParse::Malformed,
                Option::Some(mp) => SpecParse::Complete {
                    method: mp.0,
                    path: mp.1,
                    consumed: t + 4,
                },
            }
        },
    }
}

/// What an attempt to take a request off the buffer yields.
pub enum RecvOutcome {
    /// More bytes must be read first.
    Incomplete,
    /// The head is complete but its request line cannot be split; the
    /// stream is desynchronized and the connection must be closed.
    Malformed,
    /// A parsed request, and how many buffer bytes its head spanned.
    Complete { req: Request, consumed: usize },
}

/// Parses a request head from the bytes received so far. The outcome is
/// exactly what `spec_parse` says of those bytes.
pub fn parse_request(buf: &Vec<u8>) -> (r: RecvOutcome)
    ensures
        (r is Incomplete) <==> (spec_parse(buf@) is Incomplete),
        (r is Malformed) <==> (spec_parse(buf@) is Malformed),
        r is Complete ==> {
            &&& spec_parse(buf@) is Complete
            &&& r->req.method@ == spec_parse(buf@)->method
            &&& r->req.path@ == spec_parse(buf@)->path
            &&& r->consumed == spec_parse(buf@)->consumed
            &&& 4 <= r->consumed <= buf@.len()
        },
{
    let buf_len: usize = buf.len();
    let mut term: Vec<u8> = Vec::new();
    term.push(13u8);
    term.push(10u8);
    term.push(13u8);
    term.push(10u8);
    proof {
        assert(term@ =~= head_terminator());
    }
    let t = match find_bytes(buf, &term, 0) {
        Option::None => {
            return RecvOutcome::Incomplete;
        },
        Option::Some(t) => t,
    };
    proof {
        lemma_find_from(buf@, head_terminator(), 0);
        assert(is_match_at(buf@, head_terminator(), t as int));
    }
    let mut eol: Vec<u8> = Vec::new();
    eol.push(13u8);
    eol.push(10u8);
    proof {
        assert(eol@ =~= crlf());
        assert(buf@.subrange(t as int, t + 2) =~= crlf()) by {
            assert(buf@.subrange(t as int, t + 4) == head_terminator());
            assert forall|j: int| 0 <= j < 2 implies #[trigger] buf@.subrange(t as int, t + 2)[j]
                == crlf()[j] by {
                assert(buf@.subrange(t as int, t + 4)[j] == head_terminator()[j]);
            }
        }
        assert(is_match_at(buf@, crlf(), t as int));
    }
    let e = match find_bytes(buf, &eol, 0) {
        Option::None => {
            proof {
                lemma_find_from(buf@, crlf(), 0);
                assert(!is_match_at(buf@, crlf(), t as int));
            }
            return RecvOutcome::Incomplete;  // unreachable: the terminator holds a CRLF
        },
        Option::Some(e) => e,
    };
    proof {
        lemma_find_from(buf@, crlf(), 0);
        assert(is_match_at(buf@, crlf(), e as int));
    }
    let ghost line = buf@.take(e as int);
    let mut sp: Vec<u8> = Vec::new();
    sp.push(32u8);
    proof {
        assert(sp@ =~= space());
    }
    let line_vec = copy_range(buf, 0, e);
    proof {
        assert(line_vec@ == line);
    }
    let a = match find_bytes(&line_vec, &sp, 0) {
        Option::None => {
            return RecvOutcome::Malformed;
        },
        Option::Some(a) => a,
    };
    proof {
        lemma_find_from(line, space(), 0);
        assert(is_match_at(line, space(), a as int));
    }
    let b = match find_bytes(&line_vec, &sp, a + 1) {
        Option::None => {
            return RecvOutcome::Malformed;
        },
        Option::Some(b) => b,
    };
    proof {
        lemma_find_from(line, space(), a + 1);
        assert(is_match_at(line, space(), b as int));
    }
    if !(0 < a && a + 1 < b && b + 1 < line_vec.len()) {
        return RecvOutcome::Malformed;
    }
    let method = copy_range(&line_vec, 0, a);
    let path = copy_range(&line_vec, a + 1, b);
    proof {
        assert(method@ =~= line.take(a as int));
        assert(path@ =~= line.subrange(a + 1, b as int));
        assert(t + 4 <= buf@.len());
    }
    RecvOutcome::Complete { req: Request { method, path }, consumed: t + 4 }
}

/// Whether `method` is the GET method.
pub fn is_get(method: &Vec<u8>) -> (r: bool)
    ensures
        r == (method@ == spec_get()),
{
    if method.len() != 3 {
        proof {
            assert(method@ != spec_get());
        }
        return false;
    }
    let r = method[0] == 71 && method[1] == 69 && method[2] == 84;
    proof {
        if r {
            assert(method@ =~= spec_get());
        } else {
            assert(method@ != spec_get());
        }
    }
    r
}

/// The bytes of the GET method name.
pub open spec fn spec_get() -> Seq<u8> {
    seq![71u8, 69u8, 84u8]
}

} // verus!
