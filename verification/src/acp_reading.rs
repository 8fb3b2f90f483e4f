//! Reading a request that comes in pieces.
use vstd::prelude::*;

use crate::acp_state::MAX_REQUEST_BYTES;
use crate::cut::byte_len;
use crate::framing::{law_head_needs_no_body, request_bytes};
use crate::http::{
    body_is_whole, content_length, declared_length, find_header_end, has_whole_body, header_end,
    parse_request, parsed, request_head,
};
use crate::text::first_at;

verus! {

/// How far the reading of a request has come.
#[derive(Debug, Clone, Copy, PartialEq, Eq, Structural)]
pub enum ReadState {
    /// More bytes are needed.
    More,
    /// The request is there, or what is there cannot become one.
    Done,
    /// The declared length is one that no machine can count to.
    Broken,
}

/// How far the reading of a request has come: once the headers are there, the
/// length that they declare decides. Only the headers are looked at, so that a
/// character of the body may still be cut in two.
pub open spec fn read_state(data: Seq<u8>) -> ReadState {
    match header_end(data, 0) {
        None => ReadState::More,
        Some(i) => {
            let head = data.take(i + 4);
            if !body_is_whole(head) {
                ReadState::Broken
            } else {
                match parsed(head) {
                    Some(req) => if data.len() - i - 4 >= declared_length(req.headers) {
                        ReadState::Done
                    } else {
                        ReadState::More
                    },
                    None => ReadState::Done,
                }
            }
        },
    }
}

/// A request that is being read.
#[derive(Debug)]
pub struct RequestReader {
    received: Vec<u8>,
}

impl View for RequestReader {
    type V = Seq<u8>;

    closed spec fn view(&self) -> Seq<u8> {
        self.received@
    }
}

impl RequestReader {
    /// Nothing was received yet.
    pub fn new() -> (r: Self)
        ensures
            r@ == Seq::<u8>::empty(),
    {
        RequestReader { received: Vec::new() }
    }

    /// How many more bytes a request may have; none where it is too large.
    pub fn room(&self) -> (r: usize)
        ensures
            r == (if self@.len() >= MAX_REQUEST_BYTES {
                0
            } else {
                MAX_REQUEST_BYTES - self@.len()
            }),
    {
        MAX_REQUEST_BYTES.saturating_sub(self.received.len())
    }

    /// The bytes that were received.
    pub fn bytes(&self) -> (r: &[u8])
        ensures
            r@ == self@,
    {
        self.received.as_slice()
    }

    /// Takes more bytes and tells how far the reading has come.
    pub fn accept(&mut self, chunk: &[u8]) -> (r: ReadState)
        ensures
            final(self)@ == old(self)@ + chunk@,
            r == read_state(final(self)@),
    {
        let mut i: usize = 0;
        while i < chunk.len()
            invariant
                i <= chunk@.len(),
                self@ == old(self)@ + chunk@.take(i as int),
            decreases chunk@.len() - i,
        {
            self.received.push(chunk[i]);
            i = i + 1;
            proof {
                assert(self@ =~= old(self)@ + chunk@.take(i as int));
            }
        }
        proof {
            assert(chunk@.take(chunk@.len() as int) =~= chunk@);
        }
        let data = self.received.as_slice();
        match find_header_end(data) {
            None => ReadState::More,
            Some(end) => {
                let head = vstd::slice::slice_subrange(data, 0, end + 4);
                proof {
                    assert(head@ =~= data@.take(end + 4));
                }
                if !has_whole_body(head) {
                    return ReadState::Broken;
                }
                match parse_request(head) {
                    Some(req) => {
                        if data.len() - end - 4 >= content_length(&req.headers) {
                            ReadState::Done
                        } else {
                            ReadState::More
                        }
                    },
                    None => ReadState::Done,
                }
            },
        }
    }
}

/// A request is read until its head is there and then as many bytes as the head
/// declares, however the bytes come; before the head is there, more are needed.
pub proof fn law_requests_are_read_to_their_end(
    head: Seq<char>,
    body: Seq<u8>,
    method: Seq<char>,
    path: Seq<char>,
    headers: Seq<(Seq<char>, Seq<char>)>,
    data: Seq<u8>,
)
    requires
        first_at(head + "\r\n\r\n"@, "\r\n\r\n"@, 0) == Some(head.len() as int),
        request_head(head) == Some((method, path, headers)),
        byte_len(head) + 4 + declared_length(headers) <= usize::MAX,
    ensures
        read_state(request_bytes(head, body)) == (if body.len() >= declared_length(headers) {
            ReadState::Done
        } else {
            ReadState::More
        }),
        (forall|j: int|
            0 <= j && j + 4 <= data.len() ==> #[trigger] data.subrange(j, j + 4) != seq![
                13u8,
                10u8,
                13u8,
                10u8,
            ]) ==> read_state(data) is More,
{
    law_head_needs_no_body(head, body);
    let all = request_bytes(head, body);
    let i = byte_len(head) as int;
    let first = all.take(i + 4);
    assert(all.len() == i + 4 + body.len()) by {
        crate::cut::lemma_byte_len_concat(head, "\r\n\r\n"@);
        lemma_blank_line_bytes();
    }
    assert(byte_len(Seq::<char>::empty()) == 0) by {
        crate::cut::lemma_byte_len_concat(seq![], seq![]);
        assert(Seq::<char>::empty() + Seq::<char>::empty() =~= Seq::<char>::empty());
    }
    crate::cut::lemma_truncated(seq![], declared_length(headers));
    crate::http::lemma_header_end(data, 0);
    if let Some(k) = header_end(data, 0) {
        assert(data.subrange(k, k + 4) =~= seq![13u8, 10u8, 13u8, 10u8]);
    }
}

proof fn lemma_blank_line_bytes()
    ensures
        byte_len("\r\n\r\n"@) == 4,
{
    reveal_strlit("\r\n\r\n");
    let s = "\r\n\r\n"@;
    crate::cut::lemma_char_width(s);
    let a = s.drop_first();
    crate::cut::lemma_char_width(a);
    let b = a.drop_first();
    crate::cut::lemma_char_width(b);
    let c = b.drop_first();
    crate::cut::lemma_char_width(c);
    let d = c.drop_first();
    assert(d =~= Seq::<char>::empty());
    crate::cut::lemma_byte_len_concat(d, d);
    assert(d + d =~= d);
}

} // verus!
