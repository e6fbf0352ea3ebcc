use bytes::BytesMut;
use paxos_vc::msg::{decode_frame, DecodeError, EncodeError, Message, MessageCodec, FRAME_LEN};

fn buffer_of(bytes: &[u8]) -> BytesMut {
    BytesMut::from(bytes)
}

#[test]
fn view_change_frame_is_tag_two_then_the_fields() {
    let mut dst = BytesMut::new();
    MessageCodec.encode(Message::ViewChange { server_id: 7, attempted: 257 }, &mut dst);
    assert_eq!(&dst[..], &[0, 0, 0, 2, 0, 0, 0, 7, 0, 0, 1, 1][..]);
}

#[test]
fn vc_proof_frame_is_tag_three_then_the_fields() {
    let mut dst = BytesMut::new();
    MessageCodec.encode(Message::VCProof { server_id: 0x0102_0304, installed: 0xA0B0_C0D0 }, &mut dst);
    assert_eq!(&dst[..], &[0, 0, 0, 3, 1, 2, 3, 4, 0xA0, 0xB0, 0xC0, 0xD0][..]);
}

#[test]
fn every_frame_has_twelve_bytes() {
    assert_eq!(FRAME_LEN, 12);
    assert_eq!(Message::ViewChange { server_id: 0, attempted: 0 }.to_frame().len(), 12);
    assert_eq!(Message::VCProof { server_id: u32::MAX, installed: u32::MAX }.to_frame().len(), 12);
}

#[test]
fn to_frame_and_encode_agree() {
    let msg = Message::VCProof { server_id: 4, installed: 70_000 };
    let mut dst = BytesMut::new();
    MessageCodec.encode(msg, &mut dst);
    assert_eq!(&dst[..], &msg.to_frame()[..]);
    assert_eq!(msg.to_frame(), vec![0, 0, 0, 3, 0, 0, 0, 4, 0, 1, 0x11, 0x70]);
}

#[test]
fn encode_appends_behind_what_the_buffer_holds() {
    let mut dst = buffer_of(&[9, 9]);
    MessageCodec.encode(Message::ViewChange { server_id: 1, attempted: 2 }, &mut dst);
    assert_eq!(&dst[..], &[9, 9, 0, 0, 0, 2, 0, 0, 0, 1, 0, 0, 0, 2][..]);
    MessageCodec.encode(Message::VCProof { server_id: 3, installed: 4 }, &mut dst);
    assert_eq!(dst.len(), 26);
    assert_eq!(&dst[14..], &[0, 0, 0, 3, 0, 0, 0, 3, 0, 0, 0, 4][..]);
}

#[test]
fn encode_grows_a_buffer_without_room() {
    let mut dst = BytesMut::with_capacity(0);
    for i in 0..10u32 {
        MessageCodec.encode(Message::ViewChange { server_id: i, attempted: i + 1 }, &mut dst);
    }
    assert_eq!(dst.len(), 120);
    assert_eq!(&dst[108..], &[0, 0, 0, 2, 0, 0, 0, 9, 0, 0, 0, 10][..]);
}

#[test]
fn decode_reads_a_view_change() {
    let mut src = buffer_of(&[0, 0, 0, 2, 0, 0, 0, 7, 0, 0, 1, 1]);
    assert_eq!(
        MessageCodec.decode(&mut src),
        Ok(Some(Message::ViewChange { server_id: 7, attempted: 257 }))
    );
}

#[test]
fn decode_reads_a_vc_proof() {
    let mut src = buffer_of(&[0, 0, 0, 3, 0xFF, 0xFF, 0xFF, 0xFF, 0x80, 0, 0, 1]);
    assert_eq!(
        MessageCodec.decode(&mut src),
        Ok(Some(Message::VCProof { server_id: u32::MAX, installed: 0x8000_0001 }))
    );
}

#[test]
fn decode_leaves_the_buffer_as_it_was() {
    let bytes = [0, 0, 0, 2, 0, 0, 0, 7, 0, 0, 1, 1, 5, 6];
    let mut src = buffer_of(&bytes);
    let first = MessageCodec.decode(&mut src);
    assert_eq!(&src[..], &bytes[..]);
    assert_eq!(MessageCodec.decode(&mut src), first);
}

#[test]
fn decode_waits_for_the_tag() {
    assert_eq!(MessageCodec.decode(&mut BytesMut::new()), Ok(None));
    assert_eq!(MessageCodec.decode(&mut buffer_of(&[0])), Ok(None));
    assert_eq!(MessageCodec.decode(&mut buffer_of(&[0, 0, 0])), Ok(None));
    assert_eq!(MessageCodec.decode(&mut buffer_of(&[9, 9, 9])), Ok(None));
}

#[test]
fn decode_waits_for_the_fields() {
    assert_eq!(MessageCodec.decode(&mut buffer_of(&[0, 0, 0, 2])), Ok(None));
    assert_eq!(MessageCodec.decode(&mut buffer_of(&[0, 0, 0, 3, 0, 0, 0, 1])), Ok(None));
    assert_eq!(
        MessageCodec.decode(&mut buffer_of(&[0, 0, 0, 2, 0, 0, 0, 1, 0, 0, 0])),
        Ok(None)
    );
}

#[test]
fn decode_refuses_an_unknown_tag() {
    assert_eq!(
        MessageCodec.decode(&mut buffer_of(&[0, 0, 0, 4, 0, 0, 0, 1, 0, 0, 0, 1])),
        Err(DecodeError::UnknownMessageType(4))
    );
    assert_eq!(
        MessageCodec.decode(&mut buffer_of(&[0, 0, 0, 0, 0, 0, 0, 1, 0, 0, 0, 1])),
        Err(DecodeError::UnknownMessageType(0))
    );
    assert_eq!(
        MessageCodec.decode(&mut buffer_of(&[2, 0, 0, 0, 0, 0, 0, 1, 0, 0, 0, 1])),
        Err(DecodeError::UnknownMessageType(0x0200_0000))
    );
}

#[test]
fn decode_refuses_an_unknown_tag_before_the_fields_arrive() {
    assert_eq!(
        MessageCodec.decode(&mut buffer_of(&[0, 0, 0, 1])),
        Err(DecodeError::UnknownMessageType(1))
    );
    assert_eq!(
        MessageCodec.decode(&mut buffer_of(&[0xDE, 0xAD, 0xBE, 0xEF, 1])),
        Err(DecodeError::UnknownMessageType(0xDEAD_BEEF))
    );
}

#[test]
fn decode_ignores_what_follows_the_frame() {
    let mut src = buffer_of(&[0, 0, 0, 3, 0, 0, 0, 2, 0, 0, 0, 9, 0, 0, 0, 4, 1]);
    assert_eq!(
        MessageCodec.decode(&mut src),
        Ok(Some(Message::VCProof { server_id: 2, installed: 9 }))
    );
}

#[test]
fn decode_frame_works_on_plain_bytes() {
    assert_eq!(decode_frame(&[]), Ok(None));
    assert_eq!(
        decode_frame(&[0, 0, 0, 2, 0, 0, 0, 1, 0, 0, 0, 5]),
        Ok(Some(Message::ViewChange { server_id: 1, attempted: 5 }))
    );
    assert_eq!(decode_frame(&[0, 0, 1, 2]), Err(DecodeError::UnknownMessageType(258)));
}

#[test]
fn frames_round_trip() {
    let values = [0u32, 1, 2, 3, 255, 256, 65_535, 65_536, 0x00FF_FF00, 0x7FFF_FFFF, u32::MAX];
    for &server_id in values.iter() {
        for &view in values.iter() {
            for msg in [
                Message::ViewChange { server_id, attempted: view },
                Message::VCProof { server_id, installed: view },
            ] {
                let mut buf = BytesMut::new();
                MessageCodec.encode(msg, &mut buf);
                assert_eq!(buf.len(), 12);
                assert_eq!(MessageCodec.decode(&mut buf), Ok(Some(msg)));
                assert_eq!(decode_frame(&msg.to_frame()), Ok(Some(msg)));
            }
        }
    }
}

#[test]
fn the_two_variants_never_share_a_frame() {
    let a = Message::ViewChange { server_id: 5, attempted: 6 };
    let b = Message::VCProof { server_id: 5, installed: 6 };
    assert_ne!(a.to_frame(), b.to_frame());
    assert_ne!(a, b);
}

#[test]
fn try_encode_appends_like_encode() {
    let msg = Message::ViewChange { server_id: 3, attempted: 9 };
    let mut plain = buffer_of(&[1, 2, 3]);
    let mut tried = buffer_of(&[1, 2, 3]);
    MessageCodec.encode(msg, &mut plain);
    assert_eq!(MessageCodec.try_encode(msg, &mut tried), Ok(()));
    assert_eq!(&tried[..], &plain[..]);
    assert_eq!(tried.len(), 15);
    assert_ne!(MessageCodec.try_encode(msg, &mut tried), Err(EncodeError::BufferFull));
    assert_eq!(tried.len(), 27);
}
