use allvu::codec::{decode, encode, CodecError, Decoded, HEADER_LEN};
use allvu::packet::{ConnectionPacket, PacketType, MAX_PAYLOAD_LEN};

fn packet(kind: PacketType, payload: &[u8]) -> ConnectionPacket {
    ConnectionPacket { packet_type: kind, packet_data: payload.to_vec() }
}

#[test]
fn frame_of_a_greeting() {
    let p = packet(PacketType::InitialGreet, &[65, 66]);
    assert_eq!(p.to_bytes(), vec![1, 0, 0, 0, 2, 65, 66]);
}

#[test]
fn frame_of_an_empty_payload() {
    let p = packet(PacketType::CloseConnection, &[]);
    assert_eq!(p.to_bytes(), vec![100, 0, 0, 0, 0]);
}

#[test]
fn length_is_written_most_significant_byte_first() {
    let p = packet(PacketType::MediaData, &vec![7u8; 0x01_02_03]);
    let bytes = p.to_bytes();
    assert_eq!(&bytes[..5], &[20, 0x00, 0x01, 0x02, 0x03]);
    assert_eq!(bytes.len(), 5 + 0x01_02_03);
}

#[test]
fn wire_codes_are_the_stable_ones() {
    assert_eq!(PacketType::InitialGreet.code(), 1);
    assert_eq!(PacketType::NewSession.code(), 2);
    assert_eq!(PacketType::ExistingSession.code(), 3);
    assert_eq!(PacketType::ReadyForTransmission.code(), 10);
    assert_eq!(PacketType::MediaData.code(), 20);
    assert_eq!(PacketType::CloseConnection.code(), 100);
}

#[test]
fn every_code_reads_back_as_its_kind_and_no_other_code_is_known() {
    let mut known = 0;
    for code in 0..=255u8 {
        match PacketType::from_code(code) {
            Some(kind) => {
                assert_eq!(kind.code(), code);
                known += 1;
            }
            None => {}
        }
    }
    assert_eq!(known, 6);
    assert_eq!(PacketType::from_code(0), None);
    assert_eq!(PacketType::from_code(4), None);
    assert_eq!(PacketType::from_code(20), Some(PacketType::MediaData));
}

#[test]
fn new_refuses_a_payload_over_the_bound() {
    let at_bound = ConnectionPacket::new(PacketType::MediaData, vec![0; MAX_PAYLOAD_LEN as usize]);
    assert!(at_bound.is_some());
    let over = ConnectionPacket::new(PacketType::MediaData, vec![0; MAX_PAYLOAD_LEN as usize + 1]);
    assert!(over.is_none());
}

#[test]
fn clone_is_a_deep_copy() {
    let p = packet(PacketType::MediaData, &[1, 2, 3]);
    let mut q = p.clone();
    assert_eq!(p, q);
    q.packet_data[0] = 9;
    assert_eq!(p.packet_data, vec![1, 2, 3]);
}

#[test]
fn to_string_reads_text_and_refuses_what_is_no_text() {
    let p = packet(PacketType::NewSession, "no password yet :)".as_bytes());
    assert_eq!(p.to_string().unwrap(), "no password yet :)");
    let q = packet(PacketType::NewSession, "d\u{e9}j\u{e0}".as_bytes());
    assert_eq!(q.to_string().unwrap(), "d\u{e9}j\u{e0}");
    let bad = packet(PacketType::NewSession, &[0x41, 0xff, 0x42]);
    assert!(bad.to_string().is_err());
    let cut = packet(PacketType::NewSession, &[0xc3]);
    assert!(cut.to_string().is_err());
}

#[test]
fn round_trip_gives_the_packet_back() {
    let kinds = [
        PacketType::InitialGreet,
        PacketType::NewSession,
        PacketType::ExistingSession,
        PacketType::ReadyForTransmission,
        PacketType::MediaData,
        PacketType::CloseConnection,
    ];
    for (i, kind) in kinds.iter().enumerate() {
        let payload: Vec<u8> = (0..(i * 300)).map(|b| (b % 251) as u8).collect();
        let p = ConnectionPacket { packet_type: *kind, packet_data: payload };
        let bytes = p.to_bytes();
        match decode(&bytes, false) {
            Ok(Decoded::Frame(q, taken)) => {
                assert_eq!(q, p);
                assert_eq!(taken, bytes.len());
            }
            other => panic!("{:?}", other),
        }
    }
}

#[test]
fn round_trip_at_the_bound() {
    let p = packet(PacketType::MediaData, &vec![0xabu8; MAX_PAYLOAD_LEN as usize]);
    let bytes = encode(&p).unwrap();
    assert_eq!(decode(&bytes, true), Ok(Decoded::Frame(p, HEADER_LEN + MAX_PAYLOAD_LEN as usize)));
}

#[test]
fn a_frame_is_taken_and_what_follows_is_left() {
    let p = packet(PacketType::MediaData, &[1, 2, 3]);
    let q = packet(PacketType::CloseConnection, &[9]);
    let mut bytes = p.to_bytes();
    bytes.extend(q.to_bytes());
    let taken = match decode(&bytes, false) {
        Ok(Decoded::Frame(first, taken)) => {
            assert_eq!(first, p);
            taken
        }
        other => panic!("{:?}", other),
    };
    assert_eq!(taken, 8);
    assert_eq!(decode(&bytes[taken..], false), Ok(Decoded::Frame(q, 6)));
}

#[test]
fn encode_refuses_a_payload_over_the_bound() {
    let p = packet(PacketType::MediaData, &vec![0u8; MAX_PAYLOAD_LEN as usize + 1]);
    assert_eq!(encode(&p), Err(CodecError::ProtocolViolation));
    let q = packet(PacketType::MediaData, &[5]);
    assert_eq!(encode(&q), Ok(vec![20, 0, 0, 0, 1, 5]));
}

#[test]
fn an_empty_buffer_awaits_a_header_or_reports_the_close() {
    assert_eq!(decode(&[], false), Ok(Decoded::Incomplete(5)));
    assert_eq!(decode(&[], true), Err(CodecError::ConnectionClosed));
}

#[test]
fn a_short_buffer_says_how_much_is_missing() {
    assert_eq!(decode(&[20], false), Ok(Decoded::Incomplete(4)));
    assert_eq!(decode(&[20, 0, 0, 0], false), Ok(Decoded::Incomplete(1)));
    assert_eq!(decode(&[20, 0, 0, 0, 3], false), Ok(Decoded::Incomplete(3)));
    assert_eq!(decode(&[20, 0, 0, 0, 3, 1, 2], false), Ok(Decoded::Incomplete(1)));
    assert_eq!(decode(&[20, 0, 0, 1, 0], false), Ok(Decoded::Incomplete(256)));
}

#[test]
fn a_stream_that_ends_inside_a_frame_is_a_violation() {
    assert_eq!(decode(&[20], true), Err(CodecError::ProtocolViolation));
    assert_eq!(decode(&[20, 0, 0, 0, 3, 1, 2], true), Err(CodecError::ProtocolViolation));
}

#[test]
fn an_unknown_kind_is_a_violation() {
    assert_eq!(decode(&[0, 0, 0, 0, 0], false), Err(CodecError::ProtocolViolation));
    assert_eq!(decode(&[4], false), Err(CodecError::ProtocolViolation));
    assert_eq!(decode(&[255, 0, 0, 0, 1, 7], true), Err(CodecError::ProtocolViolation));
}

#[test]
fn an_oversized_length_is_a_violation_whatever_follows() {
    let header = [20u8, 0x00, 0x10, 0x00, 0x01];
    assert_eq!(decode(&header, false), Err(CodecError::ProtocolViolation));
    assert_eq!(decode(&header, true), Err(CodecError::ProtocolViolation));
    assert_eq!(decode(&[20, 0xff, 0xff, 0xff, 0xff], false), Err(CodecError::ProtocolViolation));
    let mut long = header.to_vec();
    long.extend(vec![0u8; 64]);
    assert_eq!(decode(&long, false), Err(CodecError::ProtocolViolation));
    let at_bound = [20u8, 0x00, 0x10, 0x00, 0x00];
    assert_eq!(decode(&at_bound, false), Ok(Decoded::Incomplete(MAX_PAYLOAD_LEN as usize)));
}
