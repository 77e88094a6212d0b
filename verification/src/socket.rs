//! The protocol of the HMDS server's UNIX domain socket: every message is
//! framed as its length (eight bytes, little endian) followed by its bytes;
//! a frame is written and read in possibly partial steps.

use vstd::prelude::*;
use vstd::utf8::*;

verus! {

/// The eight little-endian bytes of `n`, as `u64::to_le_bytes` gives them.
pub open spec fn le_bytes(n: u64) -> Seq<u8> {
    seq![
        (n & 0xff) as u8,
        ((n >> 8u64) & 0xff) as u8,
        ((n >> 16u64) & 0xff) as u8,
        ((n >> 24u64) & 0xff) as u8,
        ((n >> 32u64) & 0xff) as u8,
        ((n >> 40u64) & 0xff) as u8,
        ((n >> 48u64) & 0xff) as u8,
        ((n >> 56u64) & 0xff) as u8,
    ]
}

/// The number whose little-endian bytes are the first eight of `b`, as
/// `u64::from_le_bytes` reads them.
pub open spec fn le_value(b: Seq<u8>) -> u64 {
    (b[0] as u64) | ((b[1] as u64) << 8u64) | ((b[2] as u64) << 16u64) | ((b[3] as u64) << 24u64)
        | ((b[4] as u64) << 32u64) | ((b[5] as u64) << 40u64) | ((b[6] as u64) << 48u64) | ((
    b[7] as u64) << 56u64)
}

/// The header that announces a message of `len` bytes.
pub fn frame_header(len: u64) -> (r: Vec<u8>)
    ensures
        r@ == le_bytes(len),
{
    let mut r: Vec<u8> = Vec::new();
    r.push((len & 0xff) as u8);
    r.push(((len >> 8u64) & 0xff) as u8);
    r.push(((len >> 16u64) & 0xff) as u8);
    r.push(((len >> 24u64) & 0xff) as u8);
    r.push(((len >> 32u64) & 0xff) as u8);
    r.push(((len >> 40u64) & 0xff) as u8);
    r.push(((len >> 48u64) & 0xff) as u8);
    r.push(((len >> 56u64) & 0xff) as u8);
    assert(r@ =~= le_bytes(len));
    r
}

/// The message length that a header announces.
pub fn frame_length(header: &[u8]) -> (r: u64)
    requires
        header@.len() == 8,
    ensures
        r == le_value(header@),
{
    (header[0] as u64) | ((header[1] as u64) << 8u64) | ((header[2] as u64) << 16u64) | ((
    header[3] as u64) << 24u64) | ((header[4] as u64) << 32u64) | ((header[5] as u64) << 40u64)
        | ((header[6] as u64) << 48u64) | ((header[7] as u64) << 56u64)
}

/// The whole frame of a message: its header, then its bytes.
pub fn encode_frame(payload: &[u8]) -> (r: Vec<u8>)
    ensures
        r@ == le_bytes(payload@.len() as u64) + payload@,
{
    let mut r = frame_header(payload.len() as u64);
    let mut i: usize = 0;
    let ghost header = r@;
    while i < payload.len()
        invariant
            i <= payload@.len(),
            r@ == header + payload@.take(i as int),
        decreases payload@.len() - i,
    {
        r.push(payload[i]);
        assert(payload@.take(i + 1) =~= payload@.take(i as int).push(payload@[i as int]));
        i = i + 1;
    }
    assert(payload@.take(payload@.len() as int) =~= payload@);
    r
}

/// Reading a header gives back the length that was written into it.
pub proof fn lemma_frame_length_of_header(n: u64)
    ensures
        le_value(le_bytes(n)) == n,
{
    let b0 = (n & 0xff) as u8;
    let b1 = ((n >> 8u64) & 0xff) as u8;
    let b2 = ((n >> 16u64) & 0xff) as u8;
    let b3 = ((n >> 24u64) & 0xff) as u8;
    let b4 = ((n >> 32u64) & 0xff) as u8;
    let b5 = ((n >> 40u64) & 0xff) as u8;
    let b6 = ((n >> 48u64) & 0xff) as u8;
    let b7 = ((n >> 56u64) & 0xff) as u8;
    assert((b0 as u64) | ((b1 as u64) << 8u64) | ((b2 as u64) << 16u64) | ((b3 as u64) << 24u64)
        | ((b4 as u64) << 32u64) | ((b5 as u64) << 40u64) | ((b6 as u64) << 48u64) | ((b7 as u64)
        << 56u64) == n) by (bit_vector)
        requires
            b0 == (n & 0xff) as u8,
            b1 == ((n >> 8u64) & 0xff) as u8,
            b2 == ((n >> 16u64) & 0xff) as u8,
            b3 == ((n >> 24u64) & 0xff) as u8,
            b4 == ((n >> 32u64) & 0xff) as u8,
            b5 == ((n >> 40u64) & 0xff) as u8,
            b6 == ((n >> 48u64) & 0xff) as u8,
            b7 == ((n >> 56u64) & 0xff) as u8,
    ;
}

/// Every eight bytes are the header of exactly one length: writing the
/// length read from them gives them back.
pub proof fn lemma_header_of_frame_length(b: Seq<u8>)
    requires
        b.len() == 8,
    ensures
        le_bytes(le_value(b)) == b,
{
    let (b0, b1, b2, b3, b4, b5, b6, b7) = (b[0], b[1], b[2], b[3], b[4], b[5], b[6], b[7]);
    let n = le_value(b);
    assert(n == (b0 as u64) | ((b1 as u64) << 8u64) | ((b2 as u64) << 16u64) | ((b3 as u64)
        << 24u64) | ((b4 as u64) << 32u64) | ((b5 as u64) << 40u64) | ((b6 as u64) << 48u64) | ((
    b7 as u64) << 56u64));
    assert((n & 0xff) as u8 == b0 && ((n >> 8u64) & 0xff) as u8 == b1 && ((n >> 16u64) & 0xff) as u8
        == b2 && ((n >> 24u64) & 0xff) as u8 == b3 && ((n >> 32u64) & 0xff) as u8 == b4 && ((n
        >> 40u64) & 0xff) as u8 == b5 && ((n >> 48u64) & 0xff) as u8 == b6 && ((n >> 56u64)
        & 0xff) as u8 == b7) by (bit_vector)
        requires
            n == (b0 as u64) | ((b1 as u64) << 8u64) | ((b2 as u64) << 16u64) | ((b3 as u64)
                << 24u64) | ((b4 as u64) << 32u64) | ((b5 as u64) << 40u64) | ((b6 as u64)
                << 48u64) | ((b7 as u64) << 56u64),
    ;
    assert(le_bytes(n) =~= b);
}

/// The first eight bytes of a frame announce the length of the message that
/// follows them.
pub proof fn lemma_frame_announces_its_length(payload: Seq<u8>)
    requires
        payload.len() <= u64::MAX,
    ensures
        (le_bytes(payload.len() as u64) + payload).len() == 8 + payload.len(),
        le_value((le_bytes(payload.len() as u64) + payload).take(8)) == payload.len(),
        (le_bytes(payload.len() as u64) + payload).skip(8) == payload,
{
    let frame = le_bytes(payload.len() as u64) + payload;
    assert(frame.take(8) =~= le_bytes(payload.len() as u64));
    assert(frame.skip(8) =~= payload);
    lemma_frame_length_of_header(payload.len() as u64);
}

/// What one attempt to move bytes through the socket gave.
pub enum TransferEvent<E> {
    /// This many bytes were moved.
    Transferred(usize),
    /// The socket was not ready; the attempt is to be made again.
    WouldBlock,
    /// The socket failed.
    Failed(E),
}

/// What to do after an attempt.
pub enum TransferStep<E> {
    /// Make another attempt, from the transfer's new position.
    Continue(Transfer),
    /// Stop: this many bytes were moved in all.
    Finished(usize),
    /// Stop with this failure.
    Failed(E),
}

/// How far the transfer of a buffer of `total` bytes has come.
pub struct Transfer {
    done: usize,
    total: usize,
}

impl Transfer {
    #[verifier::type_invariant]
    spec fn within_buffer(self) -> bool {
        self.done <= self.total
    }

    /// The number of bytes moved so far (never more than the buffer holds).
    pub closed spec fn moved(self) -> nat {
        if self.done <= self.total {
            self.done as nat
        } else {
            self.total as nat
        }
    }

    /// The number of bytes to move in all.
    pub closed spec fn size(self) -> nat {
        self.total as nat
    }

    /// A transfer never counts more bytes moved than its buffer holds, and its
    /// buffer fits in memory.
    pub proof fn lemma_bounds(self)
        ensures
            self.moved() <= self.size() <= usize::MAX,
    {
    }

    /// A transfer of a buffer of `total` bytes, of which none has moved yet.
    pub fn new(total: usize) -> (t: Transfer)
        ensures
            t.moved() == 0,
            t.size() == total,
    {
        Transfer { done: 0, total }
    }

    /// Where the next attempt starts in the buffer; never past its end.
    pub fn position(&self) -> (r: usize)
        ensures
            r == self.moved(),
            r <= self.size(),
    {
        proof {
            use_type_invariant(self);
        }
        self.done
    }

    /// The size of the buffer.
    pub fn total(&self) -> (r: usize)
        ensures
            r == self.size(),
    {
        self.total
    }

    /// Decides what follows an attempt: an attempt that moved nothing, or
    /// that moved the rest of the buffer, ends the transfer with the number of
    /// bytes moved; one that moved some goes on from past them; a socket that
    /// was not ready is tried again; a failure ends the transfer with it.
    pub fn step<E>(self, event: TransferEvent<E>) -> (r: TransferStep<E>)
        requires
            event matches TransferEvent::Transferred(n) ==> n <= self.size() - self.moved(),
        ensures
            match event {
                TransferEvent::Transferred(n) => if n == 0 {
                    r == TransferStep::<E>::Finished(self.moved() as usize)
                } else if self.moved() + n == self.size() {
                    r == TransferStep::<E>::Finished(self.size() as usize)
                } else {
                    r matches TransferStep::Continue(t) && t.moved() == self.moved() + n
                        && t.size() == self.size() && t.moved() < t.size()
                },
                TransferEvent::WouldBlock => r matches TransferStep::Continue(t) && t.moved()
                    == self.moved() && t.size() == self.size(),
                TransferEvent::Failed(e) => r == TransferStep::Failed(e),
            },
    {
        proof {
            use_type_invariant(&self);
        }
        match event {
            TransferEvent::Transferred(n) => {
                if n == 0 {
                    return TransferStep::Finished(self.done);
                }
                let done = self.done + n;
                if done == self.total {
                    return TransferStep::Finished(done);
                }
                TransferStep::Continue(Transfer { done, total: self.total })
            },
            TransferEvent::WouldBlock => TransferStep::Continue(self),
            TransferEvent::Failed(e) => TransferStep::Failed(e),
        }
    }
}

/// The error of `String::from_utf8`, carried as an opaque value.
#[verifier::external_type_specification]
#[verifier::external_body]
pub struct ExFromUtf8Error(std::string::FromUtf8Error);

/// Calls `String::from_utf8`. Claimed: it succeeds exactly on valid UTF-8
/// (as vstd defines it) and then holds the text that the bytes encode.
#[verifier::external_body]
fn string_from_utf8(bytes: Vec<u8>) -> (r: Result<String, std::string::FromUtf8Error>)
    ensures
        r is Ok <==> valid_utf8(bytes@),
        r matches Ok(s) ==> s@ == decode_utf8(bytes@),
{
    String::from_utf8(bytes)
}

/// The text of a message, or `None` when its bytes are not UTF-8.
pub fn message_text(payload: Vec<u8>) -> (r: Option<String>)
    ensures
        r is Some <==> valid_utf8(payload@),
        r matches Some(s) ==> s@ == decode_utf8(payload@),
{
    match string_from_utf8(payload) {
        Ok(s) => Some(s),
        Err(_) => None,
    }
}

} // verus!
