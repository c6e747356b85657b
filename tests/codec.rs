use whiteboard::codec::{
    decode_event, encode_event, encode_frame, frame_length, DecodeError, FrameError,
    MAX_FRAME_LEN, PAYLOAD_LEN,
};
use whiteboard::model::{Data, Mod, Point, Shapes, Type};

fn pt(x: f32, y: f32) -> Point {
    Point { x: x.to_bits(), y: y.to_bits() }
}

const KINDS: [Mod; 6] =
    [Mod::Pen, Mod::Rectangle, Mod::RectangleLines, Mod::Circle, Mod::CircleLines, Mod::Line];
const ACTIONS: [Type; 3] = [Type::Release, Type::Clean, Type::Click];

#[test]
fn round_trip_every_kind_and_action() {
    let points = [pt(0.0, 0.0), pt(f32::MAX, -f32::MAX), pt(1e-38, 3.5e20), pt(-0.0, 54.0)];
    for mode in KINDS {
        for draw_mode in ACTIONS {
            for last in points {
                let e = Data { mode, draw_mode, last };
                let payload = encode_event(&e);
                assert_eq!(payload.len(), PAYLOAD_LEN);
                assert_eq!(decode_event(&payload), Ok(e));
            }
        }
    }
}

#[test]
fn payload_bytes_are_little_endian_words() {
    let e = Data { mode: Mod::CircleLines, draw_mode: Type::Click, last: pt(1.0, -2.0) };
    let mut expected = vec![4, 0, 0, 0, 2, 0, 0, 0];
    expected.extend_from_slice(&1.0f32.to_le_bytes());
    expected.extend_from_slice(&(-2.0f32).to_le_bytes());
    assert_eq!(encode_event(&e), expected);
}

#[test]
fn payload_matches_bincode_of_kind_action_and_floats() {
    let e = Data { mode: Mod::Rectangle, draw_mode: Type::Release, last: pt(10.0, 40.5) };
    let reference = bincode::serialize(&(1u32, 0u32, 10.0f32, 40.5f32)).unwrap();
    assert_eq!(encode_event(&e), reference);
}

#[test]
fn frame_is_big_endian_length_then_payload() {
    let e = Data { mode: Mod::Line, draw_mode: Type::Click, last: pt(3.0, 4.0) };
    let frame = encode_frame(&e);
    assert_eq!(frame.len(), 20);
    assert_eq!(&frame[0..4], &[0, 0, 0, 16]);
    assert_eq!(&frame[4..], &encode_event(&e)[..]);
}

#[test]
fn decode_rejects_short_payload() {
    assert_eq!(decode_event(&[]), Err(DecodeError::Truncated));
    assert_eq!(decode_event(&[1u8; 15]), Err(DecodeError::Truncated));
}

#[test]
fn decode_rejects_unknown_kind() {
    let mut b = vec![6, 0, 0, 0, 0, 0, 0, 0];
    b.extend_from_slice(&[0u8; 8]);
    assert_eq!(decode_event(&b), Err(DecodeError::UnknownKind(6)));
}

#[test]
fn decode_rejects_unknown_action() {
    let mut b = vec![0, 0, 0, 0, 3, 0, 0, 1];
    b.extend_from_slice(&[0u8; 8]);
    assert_eq!(decode_event(&b), Err(DecodeError::UnknownAction(0x0100_0003)));
}

#[test]
fn decode_ignores_trailing_bytes() {
    let e = Data { mode: Mod::Pen, draw_mode: Type::Click, last: pt(1.0, 2.0) };
    let mut b = encode_event(&e);
    b.push(0xff);
    assert_eq!(decode_event(&b), Ok(e));
}

#[test]
fn frame_length_reads_big_endian() {
    assert_eq!(frame_length([0, 0, 0, 16]), Ok(16));
    assert_eq!(frame_length([0, 0, 1, 2]), Ok(258));
    assert_eq!(frame_length([0, 0, 0, 0]), Ok(0));
}

#[test]
fn frame_length_accepts_exactly_one_mebibyte() {
    assert_eq!(MAX_FRAME_LEN, 1_048_576);
    assert_eq!(frame_length([0, 0x10, 0, 0]), Ok(1_048_576));
}

#[test]
fn frame_length_rejects_oversize() {
    assert_eq!(frame_length([0, 0x10, 0, 1]), Err(FrameError::Oversize(1_048_577)));
    assert_eq!(frame_length([0xff, 0xff, 0xff, 0xff]), Err(FrameError::Oversize(u32::MAX)));
}

#[test]
fn ingest_applies_good_payload_and_drops_bad_one() {
    let mut s = Shapes::new();
    let e = Data { mode: Mod::Circle, draw_mode: Type::Click, last: pt(5.0, 6.0) };
    assert_eq!(s.ingest(&encode_event(&e)), Ok(e));
    assert_eq!(s.circles, vec![vec![pt(5.0, 6.0), pt(5.0, 6.0)]]);
    assert_eq!(s.ingest(&[9u8; 16]), Err(DecodeError::UnknownKind(0x0909_0909)));
    assert_eq!(s.ingest(&[0u8; 3]), Err(DecodeError::Truncated));
    assert_eq!(s.circles, vec![vec![pt(5.0, 6.0), pt(5.0, 6.0)]]);
}

#[test]
fn two_clients_end_to_end_rectangle() {
    let sent = [
        Data { mode: Mod::Rectangle, draw_mode: Type::Click, last: pt(10.0, 10.0) },
        Data { mode: Mod::Rectangle, draw_mode: Type::Click, last: pt(50.0, 40.0) },
        Data { mode: Mod::Rectangle, draw_mode: Type::Release, last: pt(50.0, 40.0) },
    ];
    let mut wire: Vec<u8> = Vec::new();
    for e in &sent {
        wire.extend_from_slice(&encode_frame(e));
    }
    let mut client_b = Shapes::new();
    let mut at = 0;
    while at < wire.len() {
        let header = [wire[at], wire[at + 1], wire[at + 2], wire[at + 3]];
        let len = frame_length(header).unwrap();
        let payload = &wire[at + 4..at + 4 + len];
        assert!(client_b.ingest(payload).is_ok());
        at += 4 + len;
    }
    assert_eq!(client_b.rectangles, vec![vec![pt(10.0, 10.0), pt(50.0, 40.0)], vec![]]);
    assert_eq!(client_b.circles, vec![Vec::<Point>::new()]);
}
