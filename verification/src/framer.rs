//! The request framer: accumulate bytes read from a connection until the
//! end-of-headers marker `\r\n\r\n` appears anywhere in the buffer.
use vstd::prelude::*;

use crate::HttpError;

verus! {

/// Carriage return, the first byte of the end-of-headers marker.
pub const CR: u8 = 13;

/// Line feed, the second byte of the end-of-headers marker.
pub const LF: u8 = 10;

/// The four-byte end-of-headers marker `\r\n\r\n` starts at position `i`.
pub open spec fn is_terminator_at(b: Seq<u8>, i: int) -> bool {
    &&& 0 <= i
    &&& i + 4 <= b.len()
    &&& b[i] == CR
    &&& b[i + 1] == LF
    &&& b[i + 2] == CR
    &&& b[i + 3] == LF
}

/// The end-of-headers marker occurs somewhere in `b`.
pub open spec fn has_terminator(b: Seq<u8>) -> bool {
    exists|i: int| is_terminator_at(b, i)
}

/// Once the marker has appeared in the accumulated bytes, reading further
/// bytes cannot make it disappear.
pub proof fn lemma_terminator_persists(b: Seq<u8>, more: Seq<u8>)
    requires
        has_terminator(b),
    ensures
        has_terminator(b + more),
{
    let i = choose|i: int| is_terminator_at(b, i);
    assert(is_terminator_at(b + more, i));
}

/// Whether the accumulated bytes contain the end-of-headers marker,
/// wherever it lies — also when it spans what were separate reads.
fn contains_terminator(b: &Vec<u8>) -> (r: bool)
    ensures
        r == has_terminator(b@),
{
    let n = b.len();
    if n < 4 {
        return false;
    }
    let mut i: usize = 0;
    while i <= n - 4
        invariant
            n == b@.len(),
            4 <= n,
            i <= n - 3,
            forall|j: int| 0 <= j < i ==> !is_terminator_at(b@, j),
        decreases n - i,
    {
        if b[i] == CR && b[i + 1] == LF && b[i + 2] == CR && b[i + 3] == LF {
            proof {
                assert(is_terminator_at(b@, i as int));
            }
            return true;
        }
        i = i + 1;
    }
    false
}

/// What one read from the connection produced: a non-empty chunk of bytes,
/// or the peer closing its end.
pub enum ReadEvent {
    Data(Vec<u8>),
    Closed,
}

/// The growable buffer that isolates one request's header block from a raw
/// byte stream. Its view is the sequence of bytes accumulated so far.
pub struct RequestFramer {
    buf: Vec<u8>,
}

impl View for RequestFramer {
    type V = Seq<u8>;

    closed spec fn view(&self) -> Seq<u8> {
        self.buf@
    }
}

/// A name for what `String::from_utf8_lossy` yields on a byte sequence:
/// its text, invalid sequences replaced. The characters depend on the
/// bytes alone.
pub uninterp spec fn lossy_text_of(b: Seq<u8>) -> Seq<char>;

/// Relies on `String::from_utf8_lossy`: the result is a function of the
/// bytes alone, and ASCII bytes (all below 128) decode to one character
/// per byte, each with the byte's own code.
#[verifier::external_body]
fn bytes_to_text(b: &Vec<u8>) -> (s: String)
    ensures
        s@ == lossy_text_of(b@),
        (forall|i: int| 0 <= i < b@.len() ==> b@[i] < 128) ==> s@ == Seq::new(
            b@.len(),
            |i: int| b@[i] as char,
        ),
{
    String::from_utf8_lossy(b).into_owned()
}

impl RequestFramer {
    /// An empty framer, ready for the first read.
    pub fn new() -> (f: Self)
        ensures
            f@ == Seq::<u8>::empty(),
    {
        RequestFramer { buf: Vec::new() }
    }

    /// Append one chunk and report whether the end-of-headers marker now
    /// occurs anywhere in the accumulated bytes. The check runs against
    /// the whole buffer, so a marker split across two chunks is seen the
    /// instant its second half arrives.
    pub fn push_chunk(&mut self, chunk: &[u8]) -> (done: bool)
        ensures
            final(self)@ == old(self)@ + chunk@,
            done == has_terminator(final(self)@),
    {
        let mut i: usize = 0;
        while i < chunk.len()
            invariant
                i <= chunk@.len(),
                self.buf@ == old(self).buf@ + chunk@.take(i as int),
            decreases chunk@.len() - i,
        {
            self.buf.push(chunk[i]);
            proof {
                assert(old(self).buf@ + chunk@.take(i + 1) =~= (old(self).buf@ + chunk@.take(
                    i as int,
                )).push(chunk@[i as int]));
            }
            i = i + 1;
        }
        proof {
            assert(old(self).buf@ + chunk@.take(chunk@.len() as int) =~= old(self).buf@ + chunk@);
        }
        contains_terminator(&self.buf)
    }

    /// One step of the framing loop, fed with what the last read produced.
    /// A chunk is accumulated as in `push_chunk`; the peer closing before
    /// the marker has appeared is the end-of-file failure.
    pub fn on_read(&mut self, event: ReadEvent) -> (r: Result<bool, HttpError>)
        ensures
            match event {
                ReadEvent::Data(c) => final(self)@ == old(self)@ + c@ && r == Ok::<bool, HttpError>(
                    has_terminator(final(self)@),
                ),
                ReadEvent::Closed => final(self)@ == old(self)@ && r == Err::<bool, HttpError>(
                    HttpError::UnexpectedEof,
                ),
            },
    {
        match event {
            ReadEvent::Data(c) => Ok(self.push_chunk(c.as_slice())),
            ReadEvent::Closed => Err(HttpError::UnexpectedEof),
        }
    }

    /// The accumulated bytes as text, invalid sequences replaced.
    pub fn text(&self) -> (s: String)
        ensures
            s@ == lossy_text_of(self@),
            (forall|i: int| 0 <= i < self@.len() ==> self@[i] < 128) ==> s@ == Seq::new(
                self@.len(),
                |i: int| self@[i] as char,
            ),
    {
        bytes_to_text(&self.buf)
    }
}

} // verus!
