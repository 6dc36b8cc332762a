//! Frames: how payloads are told apart on a stream of bytes.
//!
//! A frame is the length of its payload, written as four bytes with the most
//! significant first, followed by the payload. A decoder collects the bytes
//! that arrive, in pieces of any size, and gives out each payload once all of
//! its bytes are there. The codec knows nothing of what a payload means.

use vstd::prelude::*;
use vstd::slice::*;

verus! {

/// The number of bytes that hold a payload's length.
pub const HEADER_LEN: usize = 4;

/// The longest payload that a frame may carry: eight mebibytes.
pub const MAX_FRAME_LEN: usize = 8388608;

/// The one way in which a stream of frames can be wrong.
#[derive(Debug, Clone, Copy, PartialEq, Eq, Structural)]
pub enum FrameError {
    /// A payload, or the length that a header announces, exceeds
    /// [`MAX_FRAME_LEN`].
    TooLarge,
}

/// The four bytes that announce a payload of `n` bytes.
pub open spec fn header(n: nat) -> Seq<u8> {
    seq![
        (n / 16777216) as u8,
        ((n / 65536) % 256) as u8,
        ((n / 256) % 256) as u8,
        (n % 256) as u8,
    ]
}

/// The length that the first four bytes of `bytes` announce.
pub open spec fn announced(bytes: Seq<u8>) -> nat {
    (bytes[0] * 16777216 + bytes[1] * 65536 + bytes[2] * 256 + bytes[3]) as nat
}

/// The frame that carries `payload`.
pub open spec fn frame(payload: Seq<u8>) -> Seq<u8> {
    header(payload.len()) + payload
}

/// What the bytes collected so far begin with.
pub enum FrameStep {
    /// Not yet a whole frame.
    Incomplete,
    /// A header that announces more than a frame may carry.
    TooLarge,
    /// A whole frame with this payload, followed by `rest`.
    Frame { payload: Seq<u8>, rest: Seq<u8> },
}

/// Reads the beginning of `bytes`.
pub open spec fn parse_frame(bytes: Seq<u8>) -> FrameStep {
    if bytes.len() < HEADER_LEN {
        FrameStep::Incomplete
    } else if announced(bytes) > MAX_FRAME_LEN {
        FrameStep::TooLarge
    } else if bytes.len() < HEADER_LEN + announced(bytes) {
        FrameStep::Incomplete
    } else {
        FrameStep::Frame {
            payload: bytes.subrange(HEADER_LEN as int, HEADER_LEN + announced(bytes)),
            rest: bytes.skip(HEADER_LEN + announced(bytes)),
        }
    }
}

/// The payloads of the whole frames that `bytes` begins with, in their order.
pub open spec fn whole_frames(bytes: Seq<u8>) -> Seq<Seq<u8>>
    decreases bytes.len(),
{
    match parse_frame(bytes) {
        FrameStep::Frame { payload, rest } => seq![payload] + whole_frames(rest),
        _ => Seq::empty(),
    }
}

/// What stands in `bytes` behind its whole frames: the beginning of a frame
/// that is not whole yet, or of one that announces too much.
pub open spec fn leftover(bytes: Seq<u8>) -> Seq<u8>
    decreases bytes.len(),
{
    match parse_frame(bytes) {
        FrameStep::Frame { payload, rest } => leftover(rest),
        _ => bytes,
    }
}

/// The frames of the payloads `payloads`, one after the other.
pub open spec fn stream(payloads: Seq<Seq<u8>>) -> Seq<u8>
    decreases payloads.len(),
{
    if payloads.len() == 0 {
        Seq::empty()
    } else {
        frame(payloads.first()) + stream(payloads.drop_first())
    }
}

/// A header announces the length that it was made for.
pub proof fn lemma_header_announces(n: nat)
    requires
        n < 4294967296,
    ensures
        header(n).len() == HEADER_LEN,
        announced(header(n)) == n,
{
}

/// Whatever follows it, a frame is read back as its payload and what follows.
pub proof fn lemma_frame_round_trip(payload: Seq<u8>, rest: Seq<u8>)
    requires
        payload.len() <= MAX_FRAME_LEN,
    ensures
        parse_frame(frame(payload) + rest) == (FrameStep::Frame { payload, rest }),
{
    let n = payload.len();
    let bytes = frame(payload) + rest;
    lemma_header_announces(n);
    assert(bytes[0] == header(n)[0] && bytes[1] == header(n)[1] && bytes[2] == header(n)[2]
        && bytes[3] == header(n)[3]);
    assert(bytes.subrange(HEADER_LEN as int, HEADER_LEN + n) =~= payload);
    assert(bytes.skip(HEADER_LEN + n) =~= rest);
}

/// As long as a byte of a frame is missing, nothing is read.
pub proof fn lemma_partial_frame(payload: Seq<u8>, k: int)
    requires
        payload.len() <= MAX_FRAME_LEN,
        0 <= k < frame(payload).len(),
    ensures
        parse_frame(frame(payload).take(k)) == FrameStep::Incomplete,
{
    let n = payload.len();
    let part = frame(payload).take(k);
    if k >= HEADER_LEN {
        assert(part[0] == header(n)[0] && part[1] == header(n)[1] && part[2] == header(n)[2]
            && part[3] == header(n)[3]);
    }
}

/// A payload that is read is never longer than a frame may carry.
pub proof fn lemma_frame_bounded(bytes: Seq<u8>)
    ensures
        parse_frame(bytes) matches FrameStep::Frame { payload, rest } ==> payload.len()
            <= MAX_FRAME_LEN && bytes == frame(payload) + rest,
{
    if let FrameStep::Frame { payload, rest } = parse_frame(bytes) {
        let n = announced(bytes);
        assert(header(n) =~= bytes.take(HEADER_LEN as int));
    }
}

/// A stream of frames is read back as its payloads, in their order, however
/// much of a further frame follows it.
pub proof fn lemma_stream_round_trip(payloads: Seq<Seq<u8>>, tail: Seq<u8>)
    requires
        forall|i: int| 0 <= i < payloads.len() ==> (#[trigger] payloads[i]).len() <= MAX_FRAME_LEN,
        !(parse_frame(tail) is Frame),
    ensures
        whole_frames(stream(payloads) + tail) == payloads,
        leftover(stream(payloads) + tail) == tail,
    decreases payloads.len(),
{
    if payloads.len() == 0 {
        assert(stream(payloads) + tail =~= tail);
    } else {
        let first = payloads.first();
        let others = payloads.drop_first();
        let rest = stream(others) + tail;
        assert(stream(payloads) + tail =~= frame(first) + rest);
        lemma_frame_round_trip(first, rest);
        lemma_stream_round_trip(others, tail);
        assert(seq![first] + others =~= payloads);
    }
}

/// Wraps `payload` into a frame. Fails exactly where the payload is longer
/// than a frame may carry.
pub fn encode_frame(payload: &[u8]) -> (r: Result<Vec<u8>, FrameError>)
    ensures
        payload@.len() <= MAX_FRAME_LEN ==> r is Ok && r->Ok_0@ == frame(payload@),
        payload@.len() > MAX_FRAME_LEN ==> r == Err::<Vec<u8>, FrameError>(FrameError::TooLarge),
{
    let n = payload.len();
    if n > MAX_FRAME_LEN {
        return Err(FrameError::TooLarge);
    }
    let mut out: Vec<u8> = Vec::new();
    out.push((n / 16777216) as u8);
    out.push(((n / 65536) % 256) as u8);
    out.push(((n / 256) % 256) as u8);
    out.push((n % 256) as u8);
    let ghost head = out@;
    out.extend_from_slice(payload);
    assert(head =~= header(n as nat));
    Ok(out)
}

/// The receiving end of a stream of frames: the bytes that have arrived and
/// belong to no payload given out so far.
#[derive(Debug)]
pub struct FrameDecoder {
    buf: Vec<u8>,
}

impl View for FrameDecoder {
    type V = Seq<u8>;

    closed spec fn view(&self) -> Seq<u8> {
        self.buf@
    }
}

impl FrameDecoder {
    /// A decoder that has received nothing.
    pub fn new() -> (r: FrameDecoder)
        ensures
            r@ == Seq::<u8>::empty(),
    {
        FrameDecoder { buf: Vec::new() }
    }

    /// Takes in the bytes that arrived.
    pub fn push(&mut self, bytes: &[u8])
        ensures
            final(self)@ == old(self)@ + bytes@,
    {
        self.buf.extend_from_slice(bytes);
    }

    /// How many bytes wait for the rest of their frame.
    pub fn buffered(&self) -> (r: usize)
        ensures
            r == self@.len(),
    {
        self.buf.len()
    }

    /// Gives out the payload of the next frame, if all of it has arrived, and
    /// keeps what follows it. Otherwise nothing changes: the frame is
    /// incomplete, or its header announces too much, which is an error.
    pub fn next_frame(&mut self) -> (r: Result<Option<Vec<u8>>, FrameError>)
        ensures
            match parse_frame(old(self)@) {
                FrameStep::Incomplete => r == Ok::<Option<Vec<u8>>, FrameError>(None)
                    && final(self)@ == old(self)@,
                FrameStep::TooLarge => r == Err::<Option<Vec<u8>>, FrameError>(
                    FrameError::TooLarge,
                ) && final(self)@ == old(self)@,
                FrameStep::Frame { payload, rest } => r is Ok && r->Ok_0 is Some
                    && r->Ok_0->Some_0@ == payload && final(self)@ == rest,
            },
    {
        if self.buf.len() < HEADER_LEN {
            return Ok(None);
        }
        let n: u64 = (self.buf[0] as u64) * 16777216 + (self.buf[1] as u64) * 65536 + (
        self.buf[2] as u64) * 256 + (self.buf[3] as u64);
        if n > MAX_FRAME_LEN as u64 {
            return Err(FrameError::TooLarge);
        }
        let n: usize = n as usize;
        if self.buf.len() - HEADER_LEN < n {
            return Ok(None);
        }
        let mut rest = self.buf.split_off(HEADER_LEN + n);
        let payload = self.buf.split_off(HEADER_LEN);
        std::mem::swap(&mut self.buf, &mut rest);
        proof {
            let bytes = old(self)@;
            assert(self.buf@ =~= bytes.skip(HEADER_LEN + announced(bytes)));
        }
        Ok(Some(payload))
    }
}

/// The byte sequences of a list of payloads.
pub open spec fn payload_views(list: Seq<Vec<u8>>) -> Seq<Seq<u8>> {
    list.map_values(|p: Vec<u8>| p@)
}

impl FrameDecoder {
    /// Gives out the payloads of all frames that have arrived in full, in
    /// their order, and keeps what follows them. The flag says whether what
    /// follows begins with a header that announces too much: then the stream
    /// is of no use any more.
    pub fn drain(&mut self) -> (r: (Vec<Vec<u8>>, bool))
        ensures
            payload_views(r.0@) == whole_frames(old(self)@),
            final(self)@ == leftover(old(self)@),
            r.1 == (parse_frame(leftover(old(self)@)) is TooLarge),
    {
        let mut out: Vec<Vec<u8>> = Vec::new();
        let mut broken = false;
        assert(payload_views(out@) + whole_frames(self@) =~= whole_frames(self@));
        loop
            invariant_except_break
                !broken,
            invariant
                payload_views(out@) + whole_frames(self@) == whole_frames(old(self)@),
                leftover(self@) == leftover(old(self)@),
            ensures
                payload_views(out@) == whole_frames(old(self)@),
                self@ == leftover(old(self)@),
                broken == (parse_frame(leftover(old(self)@)) is TooLarge),
            decreases self@.len(),
        {
            let ghost before = self@;
            let ghost got = payload_views(out@);
            match self.next_frame() {
                Ok(Some(payload)) => {
                    let ghost p = payload@;
                    out.push(payload);
                    assert(payload_views(out@) =~= got.push(p));
                    assert(got.push(p) + whole_frames(self@) =~= got + (seq![p] + whole_frames(
                        self@,
                    )));
                },
                Ok(None) => {
                    assert(got + Seq::<Seq<u8>>::empty() =~= got);
                    break ;
                },
                Err(_) => {
                    assert(got + Seq::<Seq<u8>>::empty() =~= got);
                    broken = true;
                    break ;
                },
            }
        }
        (out, broken)
    }
}

} // verus!
