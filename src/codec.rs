use vstd::prelude::*;

use crate::model::{Data, Mod, Point, Shapes, Type};
use crate::reducer::apply;

verus! {

/// bincode's error type, declared so that the wrappers below can return it.
#[verifier::external_type_specification]
#[verifier::external_body]
pub struct ExBincodeErrorKind(bincode::ErrorKind);

/// The largest payload a frame may declare: 1 MiB.
pub const MAX_FRAME_LEN: u32 = 1024 * 1024;

/// The size of an encoded edit event: four 32-bit words.
pub const PAYLOAD_LEN: usize = 16;

/// The four bytes of `n`, least significant first.
pub open spec fn le_bytes(n: u32) -> Seq<u8> {
    seq![(n & 0xff) as u8, ((n >> 8) & 0xff) as u8, ((n >> 16) & 0xff) as u8, (n >> 24) as u8]
}

/// The four bytes of `n`, most significant first.
pub open spec fn be_bytes(n: u32) -> Seq<u8> {
    seq![(n >> 24) as u8, ((n >> 16) & 0xff) as u8, ((n >> 8) & 0xff) as u8, (n & 0xff) as u8]
}

/// The number whose four bytes, least significant first, open `b`.
pub open spec fn le_value(b: Seq<u8>) -> u32 {
    (b[0] as u32) | ((b[1] as u32) << 8) | ((b[2] as u32) << 16) | ((b[3] as u32) << 24)
}

/// The number whose four bytes, most significant first, open `b`.
pub open spec fn be_value(b: Seq<u8>) -> u32 {
    ((b[0] as u32) << 24) | ((b[1] as u32) << 16) | ((b[2] as u32) << 8) | (b[3] as u32)
}

/// The `i`-th 32-bit word of a payload.
pub open spec fn word(b: Seq<u8>, i: int) -> u32 {
    le_value(b.subrange(4 * i, 4 * i + 4))
}

/// The index that stands for a shape kind on the wire.
pub open spec fn mode_index(m: Mod) -> u32 {
    match m {
        Mod::Pen => 0,
        Mod::Rectangle => 1,
        Mod::RectangleLines => 2,
        Mod::Circle => 3,
        Mod::CircleLines => 4,
        Mod::Line => 5,
    }
}

/// The index that stands for an action on the wire.
pub open spec fn action_index(t: Type) -> u32 {
    match t {
        Type::Release => 0,
        Type::Clean => 1,
        Type::Click => 2,
    }
}

pub open spec fn mode_of_index(i: u32) -> Option<Mod> {
    if i == 0 {
        Some(Mod::Pen)
    } else if i == 1 {
        Some(Mod::Rectangle)
    } else if i == 2 {
        Some(Mod::RectangleLines)
    } else if i == 3 {
        Some(Mod::Circle)
    } else if i == 4 {
        Some(Mod::CircleLines)
    } else if i == 5 {
        Some(Mod::Line)
    } else {
        None
    }
}

pub open spec fn action_of_index(i: u32) -> Option<Type> {
    if i == 0 {
        Some(Type::Release)
    } else if i == 1 {
        Some(Type::Clean)
    } else if i == 2 {
        Some(Type::Click)
    } else {
        None
    }
}

/// The payload of an edit event: the kind's index, the action's index and
/// the bits of the two coordinates, each a little-endian 32-bit word.
pub open spec fn payload_of(e: Data) -> Seq<u8> {
    le_bytes(mode_index(e.mode)) + le_bytes(action_index(e.draw_mode)) + le_bytes(e.last.x)
        + le_bytes(e.last.y)
}

/// A frame: the payload's length as a big-endian 32-bit word, then the
/// payload.
pub open spec fn frame_of(payload: Seq<u8>) -> Seq<u8> {
    be_bytes(payload.len() as u32) + payload
}

/// Why a payload could not be read as an edit event.
#[derive(Clone, Copy, Debug, PartialEq, Eq, Structural)]
pub enum DecodeError {
    /// Fewer than sixteen bytes.
    Truncated,
    /// The first word names no shape kind.
    UnknownKind(u32),
    /// The second word names no action.
    UnknownAction(u32),
}

/// What a payload decodes to. Bytes after the first sixteen are ignored.
pub open spec fn decode_spec(b: Seq<u8>) -> Result<Data, DecodeError> {
    if b.len() < 16 {
        Err(DecodeError::Truncated)
    } else {
        match mode_of_index(word(b, 0)) {
            None => Err(DecodeError::UnknownKind(word(b, 0))),
            Some(mode) => match action_of_index(word(b, 1)) {
                None => Err(DecodeError::UnknownAction(word(b, 1))),
                Some(draw_mode) => Ok(
                    Data { mode, draw_mode, last: Point { x: word(b, 2), y: word(b, 3) } },
                ),
            },
        }
    }
}

/// Relies on `bincode::serialize` (bincode 1.3: fixed-width little-endian
/// integers, no size limit): a tuple of four `u32` is written as their
/// sixteen little-endian bytes, in order. With no limit set, sizing the value
/// and writing it into a `Vec` cannot fail.
#[verifier::external_body]
fn serialize_words(w: (u32, u32, u32, u32)) -> (r: Result<Vec<u8>, Box<bincode::ErrorKind>>)
    ensures
        r is Ok,
        r->Ok_0@ == le_bytes(w.0) + le_bytes(w.1) + le_bytes(w.2) + le_bytes(w.3),
{
    bincode::serialize(&w)
}

/// Relies on `bincode::deserialize` (bincode 1.3: fixed-width little-endian
/// integers, trailing bytes allowed): a tuple of four `u32` is read from the
/// first sixteen bytes of the slice, and reading fails exactly when the slice
/// is shorter.
#[verifier::external_body]
fn deserialize_words(b: &[u8]) -> (r: Result<(u32, u32, u32, u32), Box<bincode::ErrorKind>>)
    ensures
        r is Ok <==> b@.len() >= 16,
        r is Ok ==> r->Ok_0 == (
            le_value(b@.subrange(0, 4)),
            le_value(b@.subrange(4, 8)),
            le_value(b@.subrange(8, 12)),
            le_value(b@.subrange(12, 16)),
        ),
{
    bincode::deserialize(b)
}

fn mode_to_index(m: Mod) -> (r: u32)
    ensures
        r == mode_index(m),
{
    match m {
        Mod::Pen => 0,
        Mod::Rectangle => 1,
        Mod::RectangleLines => 2,
        Mod::Circle => 3,
        Mod::CircleLines => 4,
        Mod::Line => 5,
    }
}

fn action_to_index(t: Type) -> (r: u32)
    ensures
        r == action_index(t),
{
    match t {
        Type::Release => 0,
        Type::Clean => 1,
        Type::Click => 2,
    }
}

fn index_to_mode(i: u32) -> (r: Option<Mod>)
    ensures
        r == mode_of_index(i),
{
    if i == 0 {
        Some(Mod::Pen)
    } else if i == 1 {
        Some(Mod::Rectangle)
    } else if i == 2 {
        Some(Mod::RectangleLines)
    } else if i == 3 {
        Some(Mod::Circle)
    } else if i == 4 {
        Some(Mod::CircleLines)
    } else if i == 5 {
        Some(Mod::Line)
    } else {
        None
    }
}

fn index_to_action(i: u32) -> (r: Option<Type>)
    ensures
        r == action_of_index(i),
{
    if i == 0 {
        Some(Type::Release)
    } else if i == 1 {
        Some(Type::Clean)
    } else if i == 2 {
        Some(Type::Click)
    } else {
        None
    }
}

/// Encodes an edit event as a payload.
pub fn encode_event(e: &Data) -> (r: Vec<u8>)
    ensures
        r@ == payload_of(*e),
{
    let words = (mode_to_index(e.mode), action_to_index(e.draw_mode), e.last.x, e.last.y);
    match serialize_words(words) {
        Ok(b) => b,
        Err(_) => Vec::new(),
    }
}

/// Decodes a payload into an edit event.
pub fn decode_event(payload: &[u8]) -> (r: Result<Data, DecodeError>)
    ensures
        r == decode_spec(payload@),
{
    match deserialize_words(payload) {
        Err(_) => Err(DecodeError::Truncated),
        Ok(w) => {
            assert(w.0 == word(payload@, 0) && w.1 == word(payload@, 1));
            assert(w.2 == word(payload@, 2) && w.3 == word(payload@, 3));
            match index_to_mode(w.0) {
                None => Err(DecodeError::UnknownKind(w.0)),
                Some(mode) => match index_to_action(w.1) {
                    None => Err(DecodeError::UnknownAction(w.1)),
                    Some(draw_mode) => Ok(Data { mode, draw_mode, last: Point { x: w.2, y: w.3 } }),
                },
            }
        },
    }
}

/// The big-endian bytes of a frame's length.
fn length_header(n: u32) -> (r: Vec<u8>)
    ensures
        r@ == be_bytes(n),
{
    let r = vec![(n >> 24) as u8, ((n >> 16) & 0xff) as u8, ((n >> 8) & 0xff) as u8, (n & 0xff) as u8];
    assert(r@ =~= be_bytes(n));
    r
}

/// Encodes an edit event as a whole frame, ready to be written to a peer.
pub fn encode_frame(e: &Data) -> (r: Vec<u8>)
    ensures
        r@ == frame_of(payload_of(*e)),
{
    let mut payload = encode_event(e);
    let mut frame = length_header(payload.len() as u32);
    frame.append(&mut payload);
    frame
}

/// Why a frame header ends the connection.
#[derive(Clone, Copy, Debug, PartialEq, Eq, Structural)]
pub enum FrameError {
    /// The declared payload length exceeds `MAX_FRAME_LEN`.
    Oversize(u32),
}

/// Reads the payload length from a frame header. A length over
/// `MAX_FRAME_LEN` is refused before anything is allocated for it.
pub fn frame_length(header: [u8; 4]) -> (r: Result<usize, FrameError>)
    ensures
        r == if be_value(header@) <= MAX_FRAME_LEN {
            Ok::<usize, FrameError>(be_value(header@) as usize)
        } else {
            Err::<usize, FrameError>(FrameError::Oversize(be_value(header@)))
        },
{
    let n: u32 = ((header[0] as u32) << 24) | ((header[1] as u32) << 16) | ((header[2] as u32) << 8)
        | (header[3] as u32);
    if n <= MAX_FRAME_LEN {
        Ok(n as usize)
    } else {
        Err(FrameError::Oversize(n))
    }
}

impl Shapes {
    /// Applies a received payload. A payload that does not decode is dropped
    /// and leaves the collection as it was.
    pub fn ingest(&mut self, payload: &[u8]) -> (r: Result<Data, DecodeError>)
        ensures
            r == decode_spec(payload@),
            r matches Ok(e) ==> final(self)@ == apply(old(self)@, e),
            r is Err ==> final(self)@ == old(self)@,
    {
        let r = decode_event(payload);
        if let Ok(e) = r {
            self.apply(&e);
        }
        r
    }
}

proof fn lemma_le_round_trip(n: u32)
    ensures
        le_value(le_bytes(n)) == n,
        le_bytes(n).len() == 4,
{
    let b = le_bytes(n);
    assert(b[0] == (n & 0xff) as u8 && b[1] == ((n >> 8) & 0xff) as u8);
    assert(b[2] == ((n >> 16) & 0xff) as u8 && b[3] == (n >> 24) as u8);
    assert((((n & 0xff) as u8) as u32) | ((((n >> 8) & 0xff) as u8 as u32) << 8) | ((((n >> 16)
        & 0xff) as u8 as u32) << 16) | ((((n >> 24) as u8) as u32) << 24) == n) by (bit_vector);
}

proof fn lemma_be_round_trip(n: u32)
    ensures
        be_value(be_bytes(n)) == n,
        be_bytes(n).len() == 4,
{
    let b = be_bytes(n);
    assert(b[0] == (n >> 24) as u8 && b[1] == ((n >> 16) & 0xff) as u8);
    assert(b[2] == ((n >> 8) & 0xff) as u8 && b[3] == (n & 0xff) as u8);
    assert(((((n >> 24) as u8) as u32) << 24) | ((((n >> 16) & 0xff) as u8 as u32) << 16) | ((((n
        >> 8) & 0xff) as u8 as u32) << 8) | (((n & 0xff) as u8) as u32) == n) by (bit_vector);
}

/// Decoding an encoded edit event gives the event back, for every kind,
/// action and point; and its frame declares the payload's length, which is
/// within `MAX_FRAME_LEN`, followed by the payload itself.
pub proof fn lemma_round_trip(e: Data)
    ensures
        decode_spec(payload_of(e)) == Ok::<Data, DecodeError>(e),
        payload_of(e).len() == PAYLOAD_LEN,
        frame_of(payload_of(e)).len() == 4 + PAYLOAD_LEN,
        be_value(frame_of(payload_of(e)).subrange(0, 4)) == PAYLOAD_LEN,
        PAYLOAD_LEN <= MAX_FRAME_LEN,
        frame_of(payload_of(e)).subrange(4, 4 + PAYLOAD_LEN as int) == payload_of(e),
{
    let m = mode_index(e.mode);
    let a = action_index(e.draw_mode);
    let p = payload_of(e);
    lemma_le_round_trip(m);
    lemma_le_round_trip(a);
    lemma_le_round_trip(e.last.x);
    lemma_le_round_trip(e.last.y);
    assert(p.subrange(0, 4) =~= le_bytes(m));
    assert(p.subrange(4, 8) =~= le_bytes(a));
    assert(p.subrange(8, 12) =~= le_bytes(e.last.x));
    assert(p.subrange(12, 16) =~= le_bytes(e.last.y));
    assert(word(p, 0) == m);
    assert(word(p, 1) == a);
    assert(word(p, 2) == e.last.x);
    assert(word(p, 3) == e.last.y);
    let f = frame_of(p);
    lemma_be_round_trip(16);
    assert(f.subrange(0, 4) =~= be_bytes(16));
    assert(f.subrange(4, 20) =~= p);
}

} // verus!
