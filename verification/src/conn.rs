//! The per-connection state machine.
//!
//! A connection owns a buffer of received bytes. The loop that drives it
//! feeds bytes in and asks what to do next: wait for more, respond to a
//! complete GET, silently skip a request with another method, or close
//! when the request line cannot be parsed (the stream is then
//! desynchronized and nothing can be recovered). Requests are consumed
//! strictly in order, so two requests sent back to back are answered one
//! after the other.

use vstd::prelude::*;
use crate::framing::crlf;
use crate::request::{
    Request,
    RecvOutcome,
    spec_parse,
    spec_get,
    parse_request,
    is_get,
    head_terminator,
};
use crate::scan::{
    is_match_at,
    find_from,
    copy_range,
    lemma_find_from,
    lemma_find_from_prefix,
};

verus! {

/// What the loop that drives a connection should do next.
pub enum ConnAction {
    /// No complete request head has arrived: await more bytes.
    ReadMore,
    /// A GET request is complete: resolve its path and respond.
    HandleGet { req: Request },
    /// A complete request with a method other than GET: no response is
    /// sent, and the loop awaits the next request.
    IgnoreRequest,
    /// The request line cannot be split: close the connection.
    CloseConn,
}

/// A connection's parsing state: the received bytes that no parsed
/// request has consumed yet.
pub struct Connection {
    buf: Vec<u8>,
}

impl View for Connection {
    type V = Seq<u8>;

    closed spec fn view(&self) -> Seq<u8> {
        self.buf@
    }
}

impl Connection {
    /// A fresh connection with nothing received.
    pub fn new() -> (c: Connection)
        ensures
            c@ == Seq::<u8>::empty(),
    {
        Connection { buf: Vec::new() }
    }

    /// Receives `data` into the buffer.
    pub fn feed(&mut self, data: &[u8])
        ensures
            final(self)@ == old(self)@ + data@,
    {
        let n: usize = data.len();
        let mut i: usize = 0;
        while i < n
            invariant
                i <= n,
                n == data@.len(),
                self.buf@ == old(self)@ + data@.take(i as int),
            decreases n - i,
        {
            self.buf.push(data[i]);
            i = i + 1;
            proof {
                assert(self.buf@ =~= old(self)@ + data@.take(i as int));
            }
        }
        proof {
            assert(data@.take(n as int) =~= data@);
        }
    }

    /// Attempts to take one request off the buffer and says what to do.
    /// A complete request's head leaves the buffer; otherwise the buffer
    /// stays as it was.
    pub fn next_action(&mut self) -> (r: ConnAction)
        ensures
            spec_parse(old(self)@) is Incomplete ==> r is ReadMore && final(self)@ == old(
                self,
            )@,
            spec_parse(old(self)@) is Malformed ==> r is CloseConn && final(self)@ == old(
                self,
            )@,
            spec_parse(old(self)@) is Complete ==> {
                &&& final(self)@ == old(self)@.skip(spec_parse(old(self)@)->consumed)
                &&& (spec_parse(old(self)@)->method == spec_get() ==> r is HandleGet
                    && r->req.method@ == spec_parse(old(self)@)->method
                    && r->req.path@ == spec_parse(old(self)@)->path)
                &&& (spec_parse(old(self)@)->method != spec_get() ==> r is IgnoreRequest)
            },
    {
        match parse_request(&self.buf) {
            RecvOutcome::Incomplete => ConnAction::ReadMore,
            RecvOutcome::Malformed => ConnAction::CloseConn,
            RecvOutcome::Complete { req, consumed } => {
                let rest = copy_range(&self.buf, consumed, self.buf.len());
                self.buf = rest;
                if is_get(&req.method) {
                    ConnAction::HandleGet { req }
                } else {
                    ConnAction::IgnoreRequest
                }
            },
        }
    }
}

/// Requests sent back to back are served strictly in order: when the
/// buffer holds a complete request head followed by further bytes,
/// parsing yields that first request, and consuming its head leaves
/// exactly the bytes that follow it for the next round.
pub proof fn lemma_pipelined_requests(head: Seq<u8>, rest: Seq<u8>)
    requires
        spec_parse(head) is Complete,
        spec_parse(head)->consumed == head.len(),
    ensures
        spec_parse(head + rest) is Complete,
        spec_parse(head + rest)->method == spec_parse(head)->method,
        spec_parse(head + rest)->path == spec_parse(head)->path,
        spec_parse(head + rest)->consumed == head.len(),
        (head + rest).skip(head.len() as int) == rest,
{
    let t = find_from(head, head_terminator(), 0).unwrap();
    lemma_find_from(head, head_terminator(), 0);
    assert(is_match_at(head, head_terminator(), t));
    lemma_find_from_prefix(head, rest, head_terminator(), 0);
    assert(head.subrange(t, t + 2) =~= crlf()) by {
        assert(head.subrange(t, t + 4) == head_terminator());
        assert forall|j: int| 0 <= j < 2 implies #[trigger] head.subrange(t, t + 2)[j]
            == crlf()[j] by {
            assert(head.subrange(t, t + 4)[j] == head_terminator()[j]);
        }
    }
    assert(is_match_at(head, crlf(), t));
    lemma_find_from(head, crlf(), 0);
    assert(find_from(head, crlf(), 0) is Some);
    let e = find_from(head, crlf(), 0).unwrap();
    assert(is_match_at(head, crlf(), e));
    lemma_find_from_prefix(head, rest, crlf(), 0);
    assert((head + rest).take(e) =~= head.take(e));
    assert((head + rest).skip(head.len() as int) =~= rest);
}

} // verus!
