//! Replies on the wire, in either protocol version.

use vstd::prelude::*;
use crate::text;

verus! {

/// The protocol version of a connection.
#[derive(Copy, Clone, Debug, PartialEq, Eq, Structural)]
pub enum Protocol {
    Resp2,
    Resp3,
}

/// A line: a type byte, the content, CRLF.
pub open spec fn framed(kind: u8, content: Seq<u8>) -> Seq<u8> {
    seq![kind] + content + seq![13u8, 10u8]
}

/// A simple string.
pub open spec fn simple_reply(s: Seq<char>) -> Seq<u8> {
    framed(43, text::utf8(s))
}

/// An error.
pub open spec fn error_reply(s: Seq<char>) -> Seq<u8> {
    framed(45, text::utf8(s))
}

/// An integer.
pub open spec fn int_reply(n: int) -> Seq<u8> {
    framed(58, text::dec_int(n))
}

/// A bulk string: its length, then its bytes.
pub open spec fn bulk_reply(data: Seq<u8>) -> Seq<u8> {
    framed(36, text::dec(data.len())) + data + seq![13u8, 10u8]
}

/// The header of an array of `n` replies.
pub open spec fn array_reply(n: nat) -> Seq<u8> {
    framed(42, text::dec(n))
}

/// The header of a map of `n` pairs; version 2 writes it as a flat array.
pub open spec fn map_reply(proto: Protocol, n: nat) -> Seq<u8> {
    match proto {
        Protocol::Resp2 => array_reply(2 * n),
        Protocol::Resp3 => framed(37, text::dec(n)),
    }
}

/// The absent value.
pub open spec fn null_reply(proto: Protocol) -> Seq<u8> {
    match proto {
        Protocol::Resp2 => framed(36, seq![45u8, 49u8]),
        Protocol::Resp3 => framed(95, Seq::empty()),
    }
}

/// The absent array.
pub open spec fn null_array_reply(proto: Protocol) -> Seq<u8> {
    match proto {
        Protocol::Resp2 => framed(42, seq![45u8, 49u8]),
        Protocol::Resp3 => framed(95, Seq::empty()),
    }
}

/// Plain text with its format; version 2 writes it as a bulk string.
pub open spec fn verbatim_reply(proto: Protocol, data: Seq<u8>) -> Seq<u8> {
    match proto {
        Protocol::Resp2 => bulk_reply(data),
        Protocol::Resp3 => framed(61, text::dec(data.len() + 4)) + seq![116u8, 120u8, 116u8, 58u8]
            + data + seq![13u8, 10u8],
    }
}

/// Writing `more` after `base` and `done` is writing both after `base`.
pub proof fn extended(base: Seq<u8>, done: Seq<u8>, more: Seq<u8>) -> (r: Seq<u8>)
    ensures
        r == done + more,
        base + done + more == base + (done + more),
{
    assert(base + done + more =~= base + (done + more));
    done + more
}

/// A reply being written.
#[derive(Debug)]
pub struct RespWriter {
    pub out: Vec<u8>,
    pub proto: Protocol,
}

impl View for RespWriter {
    type V = Seq<u8>;

    open spec fn view(&self) -> Seq<u8> {
        self.out@
    }
}

impl RespWriter {
    /// Nothing written yet.
    pub fn new(proto: Protocol) -> (r: RespWriter)
        ensures
            r@ == Seq::<u8>::empty(),
            r.proto == proto,
    {
        RespWriter { out: Vec::new(), proto }
    }

    fn line(&mut self, kind: u8, content: &[u8])
        ensures
            final(self)@ == old(self)@ + framed(kind, content@),
            final(self).proto == old(self).proto,
    {
        let ghost before = self.out@;
        self.out.push(kind);
        text::push_bytes(&mut self.out, content);
        self.out.push(13);
        self.out.push(10);
        proof {
            assert(self.out@ =~= before + framed(kind, content@));
        }
    }

    fn tail(&mut self, data: &[u8])
        ensures
            final(self)@ == old(self)@ + data@ + seq![13u8, 10u8],
            final(self).proto == old(self).proto,
    {
        let ghost before = self.out@;
        text::push_bytes(&mut self.out, data);
        self.out.push(13);
        self.out.push(10);
        proof {
            assert(self.out@ =~= before + data@ + seq![13u8, 10u8]);
        }
    }

    /// Writes a simple string.
    pub fn simple(&mut self, s: &str)
        ensures
            final(self)@ == old(self)@ + simple_reply(s@),
            final(self).proto == old(self).proto,
    {
        self.line(43, s.as_bytes());
    }

    /// Writes an error.
    pub fn error(&mut self, s: &str)
        ensures
            final(self)@ == old(self)@ + error_reply(s@),
            final(self).proto == old(self).proto,
    {
        self.line(45, s.as_bytes());
    }

    /// Writes an integer.
    pub fn integer(&mut self, n: i64)
        ensures
            final(self)@ == old(self)@ + int_reply(n as int),
            final(self).proto == old(self).proto,
    {
        let mut digits: Vec<u8> = Vec::new();
        text::push_dec_int(&mut digits, n);
        proof {
            assert(digits@ =~= text::dec_int(n as int));
        }
        self.line(58, digits.as_slice());
    }

    /// Writes a bulk string.
    pub fn bulk(&mut self, data: &[u8])
        ensures
            final(self)@ == old(self)@ + bulk_reply(data@),
            final(self).proto == old(self).proto,
    {
        let ghost before = self.out@;
        self.line(36, text::dec_bytes(data.len() as u128).as_slice());
        self.tail(data);
        proof {
            assert(self.out@ =~= before + bulk_reply(data@));
        }
    }

    /// Writes an array header.
    pub fn array_header(&mut self, n: usize)
        ensures
            final(self)@ == old(self)@ + array_reply(n as nat),
            final(self).proto == old(self).proto,
    {
        self.line(42, text::dec_bytes(n as u128).as_slice());
    }

    /// Writes a map header.
    pub fn map_header(&mut self, n: usize)
        ensures
            final(self)@ == old(self)@ + map_reply(old(self).proto, n as nat),
            final(self).proto == old(self).proto,
    {
        match self.proto {
            Protocol::Resp2 => self.line(42, text::dec_bytes(2 * n as u128).as_slice()),
            Protocol::Resp3 => self.line(37, text::dec_bytes(n as u128).as_slice()),
        }
    }

    /// Writes the absent value.
    pub fn null(&mut self)
        ensures
            final(self)@ == old(self)@ + null_reply(old(self).proto),
            final(self).proto == old(self).proto,
    {
        match self.proto {
            Protocol::Resp2 => {
                let minus_one: [u8; 2] = [45, 49];
                proof {
                    assert(minus_one@ =~= seq![45u8, 49u8]);
                }
                self.line(36, minus_one.as_slice());
            },
            Protocol::Resp3 => {
                let nothing: Vec<u8> = Vec::new();
                self.line(95, nothing.as_slice());
            },
        }
    }

    /// Writes the absent array.
    pub fn null_array(&mut self)
        ensures
            final(self)@ == old(self)@ + null_array_reply(old(self).proto),
            final(self).proto == old(self).proto,
    {
        match self.proto {
            Protocol::Resp2 => {
                let minus_one: [u8; 2] = [45, 49];
                proof {
                    assert(minus_one@ =~= seq![45u8, 49u8]);
                }
                self.line(42, minus_one.as_slice());
            },
            Protocol::Resp3 => {
                let nothing: Vec<u8> = Vec::new();
                self.line(95, nothing.as_slice());
            },
        }
    }

    /// Writes plain text.
    pub fn verbatim(&mut self, data: &[u8])
        ensures
            final(self)@ == old(self)@ + verbatim_reply(old(self).proto, data@),
            final(self).proto == old(self).proto,
    {
        match self.proto {
            Protocol::Resp2 => self.bulk(data),
            Protocol::Resp3 => {
                let ghost before = self.out@;
                self.line(61, text::dec_bytes(data.len() as u128 + 4).as_slice());
                self.out.push(116);
                self.out.push(120);
                self.out.push(116);
                self.out.push(58);
                self.tail(data);
                proof {
                    assert(self.out@ =~= before + verbatim_reply(Protocol::Resp3, data@));
                }
            },
        }
    }
}

/// A bulk reply says how long it is before its data, and ends its header and
/// its data with a line break, whatever the data holds.
pub proof fn law_bulk_says_its_length(data: Seq<u8>, proto: Protocol)
    ensures
        bulk_reply(data) == seq![36u8] + text::dec(data.len()) + seq![13u8, 10u8] + data + seq![
            13u8,
            10u8,
        ],
        verbatim_reply(Protocol::Resp2, data) == bulk_reply(data),
        verbatim_reply(Protocol::Resp3, data) == seq![61u8] + text::dec(data.len() + 4) + seq![
            13u8,
            10u8,
        ] + seq![116u8, 120u8, 116u8, 58u8] + data + seq![13u8, 10u8],
{
}

/// A reply starts with the mark of its kind and ends with a line break.
pub proof fn law_reply_starts_with_its_mark(s: Seq<char>, n: int, m: nat)
    ensures
        simple_reply(s) == seq![43u8] + text::utf8(s) + seq![13u8, 10u8],
        error_reply(s) == seq![45u8] + text::utf8(s) + seq![13u8, 10u8],
        int_reply(n) == seq![58u8] + text::dec_int(n) + seq![13u8, 10u8],
        array_reply(m) == seq![42u8] + text::dec(m) + seq![13u8, 10u8],
{
}

/// A map of pairs is a flat array of twice as many items in the old protocol,
/// and a map in the new one. What is absent has one mark in the new protocol;
/// in the old one it is a bulk or an array of length minus one.
pub proof fn law_maps_and_nulls_by_protocol(n: nat)
    ensures
        map_reply(Protocol::Resp2, n) == array_reply(2 * n),
        map_reply(Protocol::Resp3, n) == seq![37u8] + text::dec(n) + seq![13u8, 10u8],
        null_reply(Protocol::Resp3) == null_array_reply(Protocol::Resp3),
        null_reply(Protocol::Resp3) == seq![95u8, 13u8, 10u8],
        null_reply(Protocol::Resp2) == seq![36u8, 45u8, 49u8, 13u8, 10u8],
        null_array_reply(Protocol::Resp2) == seq![42u8, 45u8, 49u8, 13u8, 10u8],
{
    assert(null_reply(Protocol::Resp3) =~= seq![95u8, 13u8, 10u8]);
    assert(null_reply(Protocol::Resp2) =~= seq![36u8, 45u8, 49u8, 13u8, 10u8]);
    assert(null_array_reply(Protocol::Resp2) =~= seq![42u8, 45u8, 49u8, 13u8, 10u8]);
}

} // verus!
