//! Frames: a length, a type byte, and what the type says.
use vstd::prelude::*;
use vstd::string::StringSliceAdditionalSpecFns;

use crate::words::{cat3, dec, decimal};

verus! {

pub const JSON: u8 = 0x00;

pub const MAX_FRAME: u32 = 16777216;

/// What a frame turns out to hold.
pub enum Frame {
    /// A document, spelled anew.
    Json(String),
    /// A frame whose length and type were fine and whose document was not. The link survives it: one
    /// unreadable message from the server is not a reason to drop every call in flight.
    Unreadable(String),
    /// Anything the protocol does not send in this direction.
    Other(u8),
}

pub enum FrameView {
    Json(Seq<char>),
    Unreadable(Seq<char>),
    Other(u8),
}

impl View for Frame {
    type V = FrameView;

    open spec fn view(&self) -> FrameView {
        match self {
            Frame::Json(text) => FrameView::Json(text@),
            Frame::Unreadable(reason) => FrameView::Unreadable(reason@),
            Frame::Other(kind) => FrameView::Other(*kind),
        }
    }
}

/// What `serde_json::from_slice` makes of some bytes: the text its value writes itself as, or the
/// text of its error.
pub uninterp spec fn document_in(bytes: Seq<u8>) -> Result<Seq<char>, Seq<char>>;

/// `serde_json::from_slice` into a `serde_json::Value`, a function of the bytes alone. A value comes
/// back as the text it writes itself as, which reads as the same value but for the last place of a
/// number with a fraction; an error as its message.
#[verifier::external_body]
fn read_document(bytes: &[u8]) -> (r: Result<String, String>)
    ensures
        match r {
            Ok(text) => document_in(bytes@) == Ok::<Seq<char>, Seq<char>>(text@),
            Err(reason) => document_in(bytes@) == Err::<Seq<char>, Seq<char>>(reason@),
        },
{
    match serde_json::from_slice::<serde_json::Value>(bytes) {
        Ok(value) => Ok(value.to_string()),
        Err(error) => Err(error.to_string()),
    }
}

/// Whether a frame may have a length.
pub open spec fn fits(length: u32) -> bool {
    1 <= length <= MAX_FRAME
}

/// The length a frame announces, or why it cannot have it.
pub fn length(announced: u32) -> (r: Result<usize, String>)
    ensures
        match r {
            Ok(n) => fits(announced) && n == announced,
            Err(reason) => !fits(announced) && reason@ == "a frame of "@ + dec(announced as int)
                + " bytes, outside 1..="@ + dec(MAX_FRAME as int),
        },
{
    if announced == 0 || announced > MAX_FRAME {
        let mut reason = cat3("a frame of ", decimal(announced as u64).as_str(), " bytes, outside 1..=");
        reason.append(decimal(MAX_FRAME as u64).as_str());
        Err(reason)
    } else {
        Ok(announced as usize)
    }
}

/// What the body of a frame holds.
pub open spec fn content(body: Seq<u8>) -> FrameView
    recommends
        body.len() > 0,
{
    if body[0] == JSON {
        match document_in(body.skip(1)) {
            Ok(text) => FrameView::Json(text),
            Err(reason) => FrameView::Unreadable(reason),
        }
    } else {
        FrameView::Other(body[0])
    }
}

/// The frame with this body, which is as long as the frame announced.
pub fn decode(body: &Vec<u8>) -> (r: Frame)
    requires
        body@.len() > 0,
    ensures
        r@ == content(body@),
{
    if body[0] == JSON {
        let bytes = vstd::slice::slice_subrange(body.as_slice(), 1, body.len());
        proof {
            assert(bytes@ =~= body@.skip(1));
        }
        received(body[0], read_document(bytes))
    } else {
        Frame::Other(body[0])
    }
}

/// A frame of a type whose document was read, or was not.
pub fn received(kind: u8, document: Result<String, String>) -> (r: Frame)
    ensures
        r@ == if kind == JSON {
            match document {
                Ok(text) => FrameView::Json(text@),
                Err(reason) => FrameView::Unreadable(reason@),
            }
        } else {
            FrameView::Other(kind)
        },
{
    if kind == JSON {
        match document {
            Ok(text) => Frame::Json(text),
            Err(reason) => Frame::Unreadable(reason),
        }
    } else {
        Frame::Other(kind)
    }
}

/// A number in four bytes, the highest first.
pub open spec fn big_endian(n: int) -> Seq<u8> {
    seq![
        (n / 0x100_0000 % 0x100) as u8,
        (n / 0x1_0000 % 0x100) as u8,
        (n / 0x100 % 0x100) as u8,
        (n % 0x100) as u8,
    ]
}

/// The number four bytes are, the highest first.
pub open spec fn number_in(bytes: Seq<u8>) -> int {
    bytes[0] * 0x100_0000 + bytes[1] * 0x1_0000 + bytes[2] * 0x100 + bytes[3]
}

/// The bytes of a frame: the length of what follows, the type, the payload.
pub open spec fn frame_of(kind: u8, payload: Seq<u8>) -> Seq<u8> {
    big_endian(payload.len() as int + 1) + seq![kind] + payload
}

pub fn encode(kind: u8, payload: &[u8]) -> (r: Vec<u8>)
    requires
        payload@.len() < u32::MAX,
    ensures
        r@ == frame_of(kind, payload@),
{
    let length: u32 = payload.len() as u32 + 1;
    let mut frame: Vec<u8> = Vec::with_capacity(16);
    frame.push((length / 0x100_0000 % 0x100) as u8);
    frame.push((length / 0x1_0000 % 0x100) as u8);
    frame.push((length / 0x100 % 0x100) as u8);
    frame.push((length % 0x100) as u8);
    frame.push(kind);
    let ghost head = frame@;
    let mut i: usize = 0;
    proof {
        assert(head =~= big_endian(payload@.len() as int + 1) + seq![kind]);
        assert(frame@ =~= head + payload@.take(0));
    }
    while i < payload.len()
        invariant
            i <= payload@.len(),
            frame@ == head + payload@.take(i as int),
        decreases payload@.len() - i,
    {
        frame.push(payload[i]);
        i += 1;
        proof {
            assert(frame@ =~= head + payload@.take(i as int));
        }
    }
    proof {
        assert(payload@.take(payload@.len() as int) =~= payload@);
    }
    frame
}

/// A document's text in a frame.
pub fn json(text: &str) -> (r: Vec<u8>)
    requires
        text.spec_bytes().len() < u32::MAX,
    ensures
        r@ == frame_of(JSON, text.spec_bytes()),
{
    encode(JSON, text.as_bytes())
}

/// What the bytes that came in since the last frame amount to.
pub enum Arrival {
    /// So many more are needed.
    More(usize),
    /// The connection closed between frames.
    Closed,
    /// The connection closed inside a frame.
    Cut,
    /// The frame announces a length it cannot have.
    Misfit(String),
    /// A frame, and how many bytes it took.
    Whole(Frame, usize),
}

pub enum ArrivalView {
    More(int),
    Closed,
    Cut,
    Misfit(Seq<char>),
    Whole(FrameView, int),
}

impl View for Arrival {
    type V = ArrivalView;

    open spec fn view(&self) -> ArrivalView {
        match self {
            Arrival::More(n) => ArrivalView::More(*n as int),
            Arrival::Closed => ArrivalView::Closed,
            Arrival::Cut => ArrivalView::Cut,
            Arrival::Misfit(reason) => ArrivalView::Misfit(reason@),
            Arrival::Whole(frame, taken) => ArrivalView::Whole(frame@, *taken as int),
        }
    }
}

/// What some bytes amount to, and whether the connection closed behind them.
pub open spec fn read_of(bytes: Seq<u8>, closed: bool) -> ArrivalView {
    let announced = number_in(bytes);
    if bytes.len() < 4 {
        if !closed {
            ArrivalView::More(4 - bytes.len())
        } else if bytes.len() == 0 {
            ArrivalView::Closed
        } else {
            ArrivalView::Cut
        }
    } else if !fits(announced as u32) {
        ArrivalView::Misfit(
            "a frame of "@ + dec(announced) + " bytes, outside 1..="@ + dec(MAX_FRAME as int),
        )
    } else if bytes.len() < 4 + announced {
        if closed {
            ArrivalView::Cut
        } else {
            ArrivalView::More(4 + announced - bytes.len())
        }
    } else {
        ArrivalView::Whole(content(bytes.subrange(4, 4 + announced)), 4 + announced)
    }
}

/// One frame of the bytes that came in since the last one; nothing where the connection closed
/// between frames.
pub fn read(bytes: &Vec<u8>, closed: bool) -> (r: Arrival)
    ensures
        r@ == read_of(bytes@, closed),
{
    let count: usize = bytes.len();
    if count < 4 {
        return if !closed {
            Arrival::More(4 - count)
        } else if count == 0 {
            Arrival::Closed
        } else {
            Arrival::Cut
        };
    }
    let announced: u32 = bytes[0] as u32 * 0x100_0000 + bytes[1] as u32 * 0x1_0000 + bytes[2] as u32
        * 0x100 + bytes[3] as u32;
    match length(announced) {
        Err(reason) => Arrival::Misfit(reason),
        Ok(n) => {
            if count - 4 < n {
                return if closed {
                    Arrival::Cut
                } else {
                    Arrival::More(n - (count - 4))
                };
            }
            let mut body: Vec<u8> = Vec::new();
            let mut i: usize = 4;
            while i < 4 + n
                invariant
                    4 <= i <= 4 + n <= bytes@.len(),
                    n <= MAX_FRAME,
                    body@ == bytes@.subrange(4, i as int),
                decreases 4 + n - i,
            {
                body.push(bytes[i]);
                i += 1;
                proof {
                    assert(body@ =~= bytes@.subrange(4, i as int));
                }
            }
            Arrival::Whole(decode(&body), 4 + n)
        },
    }
}

/// A connection that closes inside a frame is never taken for one that closed between frames, and
/// before the last byte of a frame is there it is not read.
pub proof fn a_part_of_a_frame_is_no_frame(kind: u8, payload: Seq<u8>, n: int)
    requires
        payload.len() < MAX_FRAME,
        0 < n < frame_of(kind, payload).len(),
    ensures
        read_of(frame_of(kind, payload).take(n), true) == ArrivalView::Cut,
        read_of(frame_of(kind, payload).take(n), false) is More,
        read_of(frame_of(kind, payload), true) == read_of(frame_of(kind, payload), false),
        read_of(frame_of(kind, payload), false) == ArrivalView::Whole(
            content(seq![kind] + payload),
            payload.len() as int + 5,
        ),
{
    let bytes = frame_of(kind, payload);
    a_frame_reads_back(kind, payload);
    assert(number_in(bytes.take(4)) == number_in(bytes));
    if n >= 4 {
        assert(number_in(bytes.take(n)) == number_in(bytes));
    }
    assert(bytes.subrange(4, bytes.len() as int) =~= seq![kind] + payload);
}

/// A frame with more behind it is read as what it was made of, and what it took is the frame and
/// nothing of what is behind it. One longer than a frame may be is refused, as is one of no length,
/// whatever follows.
pub proof fn a_stream_is_left_behind_the_frame(
    kind: u8,
    payload: Seq<u8>,
    rest: Seq<u8>,
    closed: bool,
)
    requires
        payload.len() < u32::MAX,
    ensures
        ({
            let stream = frame_of(kind, payload) + rest;
            let read = read_of(stream, closed);
            &&& payload.len() >= MAX_FRAME ==> read is Misfit
            &&& payload.len() < MAX_FRAME ==> (read matches ArrivalView::Whole(frame, taken)
                && stream.skip(taken) == rest && stream.take(taken) == frame_of(kind, payload)
                && frame == if kind != JSON {
                FrameView::Other(kind)
            } else {
                match document_in(payload) {
                    Ok(text) => FrameView::Json(text),
                    Err(reason) => FrameView::Unreadable(reason),
                }
            })
            &&& read_of(big_endian(0) + rest, closed) is Misfit
        }),
{
    let bytes = frame_of(kind, payload);
    let stream = bytes + rest;
    a_frame_reads_back(kind, payload);
    assert(number_in(bytes.take(4)) == number_in(stream));
    assert(stream.take(bytes.len() as int) =~= bytes);
    assert(stream.skip(bytes.len() as int) =~= rest);
    assert(number_in(big_endian(0) + rest) == 0);
    if payload.len() < MAX_FRAME {
        assert(stream.subrange(4, bytes.len() as int) =~= bytes.skip(4));
    }
}

/// What is asked for of a stream is never more than the frame that is coming in still has, so that
/// reading it leaves what is behind the frame where it is.
pub proof fn no_more_is_asked_for_than_the_frame_has(
    kind: u8,
    payload: Seq<u8>,
    n: int,
    closed: bool,
)
    requires
        payload.len() < u32::MAX,
        0 <= n <= frame_of(kind, payload).len(),
    ensures
        read_of(frame_of(kind, payload).take(n), closed) matches ArrivalView::More(needed) ==> 0
            < needed && n + needed <= frame_of(kind, payload).len(),
{
    let bytes = frame_of(kind, payload);
    a_frame_reads_back(kind, payload);
    assert(number_in(bytes.take(4)) == number_in(bytes));
    if n >= 4 {
        assert(number_in(bytes.take(n)) == number_in(bytes));
    }
}

/// What a frame was made of is what reading it finds: the length that its first four bytes announce
/// is the length of the rest, and that rest is the type and the payload.
pub proof fn a_frame_reads_back(kind: u8, payload: Seq<u8>)
    requires
        payload.len() < u32::MAX,
    ensures
        ({
            let bytes = frame_of(kind, payload);
            &&& number_in(bytes.take(4)) == bytes.len() - 4
            &&& bytes.skip(4)[0] == kind
            &&& bytes.skip(4).skip(1) == payload
            &&& fits((payload.len() + 1) as u32) == (payload.len() < MAX_FRAME)
            &&& content(bytes.skip(4)) == if kind == JSON {
                match document_in(payload) {
                    Ok(text) => FrameView::Json(text),
                    Err(reason) => FrameView::Unreadable(reason),
                }
            } else {
                FrameView::Other(kind)
            }
        }),
{
    let bytes = frame_of(kind, payload);
    let n: int = payload.len() as int + 1;
    assert(bytes.take(4) =~= big_endian(n));
    assert(bytes.skip(4).skip(1) =~= payload);
    assert(n / 0x100_0000 < 0x100) by (nonlinear_arith)
        requires
            0 <= n < 0x1_0000_0000,
    ;
    let a = n / 0x100;
    let b = a / 0x100;
    let c = b / 0x100;
    assert(n / 0x1_0000 == b) by (nonlinear_arith)
        requires
            a == n / 0x100,
            b == a / 0x100,
            n >= 0,
    ;
    assert(n / 0x100_0000 == c) by (nonlinear_arith)
        requires
            a == n / 0x100,
            b == a / 0x100,
            c == b / 0x100,
            n >= 0,
    ;
}

/// What is asked for of a stream is what its length, or the frame it announces, still lacks; a stream that
/// closed asks for nothing.
pub proof fn what_is_asked_for_is_what_lacks(bytes: Seq<u8>)
    ensures
        bytes.len() < 4 ==> (read_of(bytes, false) matches ArrivalView::More(wanted) && wanted
            + bytes.len() == 4),
        read_of(Seq::empty(), true) == ArrivalView::Closed,
        0 < bytes.len() < 4 ==> read_of(bytes, true) == ArrivalView::Cut,
        bytes.len() >= 4 ==> (read_of(bytes, false) matches ArrivalView::More(wanted) ==> wanted > 0
            && wanted + bytes.len() == 4 + number_in(bytes) && read_of(bytes, true)
            == ArrivalView::Cut),
        MAX_FRAME == 16777216,
{
}

} // verus!
