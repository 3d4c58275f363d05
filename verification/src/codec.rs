//! The wire codec: how a frame is read from the bytes of a connection.

use crate::packet::{
    be32, frame, from_be32, lemma_be32_of_bytes, lemma_bytes_of_be32, ConnectionPacket, Packet,
    PacketType, MAX_PAYLOAD_LEN,
};
use vstd::prelude::*;
use vstd::slice::slice_subrange;

verus! {

/// Number of bytes in front of the payload: the kind and the length.
pub const HEADER_LEN: usize = 5;

/// Why no packet could be read.
#[derive(Clone, Copy, Debug, PartialEq, Eq, Structural)]
pub enum CodecError {
    /// The bytes are no frame of this protocol: the kind is unknown, the
    /// length is over the bound, or the stream ended inside a frame.
    ProtocolViolation,
    /// The stream ended where a frame would have begun.
    ConnectionClosed,
}

/// What the front of a buffer holds.
#[derive(Debug, PartialEq, Eq)]
pub enum Decoded {
    /// A whole frame: its packet, and the number of bytes the frame takes.
    Frame(ConnectionPacket, usize),
    /// The frame is not complete yet; at least this many bytes are missing.
    /// Nothing has been taken from the buffer.
    Incomplete(usize),
}

/// What the front of a buffer holds, as the contracts see it.
pub enum Reading {
    Frame(Packet, nat),
    Incomplete(nat),
}

impl View for Decoded {
    type V = Reading;

    open spec fn view(&self) -> Reading {
        match self {
            Decoded::Frame(packet, taken) => Reading::Frame(packet@, *taken as nat),
            Decoded::Incomplete(missing) => Reading::Incomplete(*missing as nat),
        }
    }
}

/// The length that the header at the front of `bytes` announces.
pub open spec fn announced_len(bytes: Seq<u8>) -> u32
    recommends
        bytes.len() >= HEADER_LEN,
{
    from_be32(bytes[1], bytes[2], bytes[3], bytes[4])
}

/// The result of a short buffer: more bytes are awaited while the stream is
/// open; once it has ended, the frame is broken.
pub open spec fn short_by(missing: nat, ended: bool) -> Result<Reading, CodecError> {
    if ended {
        Err(CodecError::ProtocolViolation)
    } else {
        Ok(Reading::Incomplete(missing))
    }
}

/// What `decode` returns for the bytes received so far, where `ended` says
/// that the peer will send no more.
pub open spec fn reading(bytes: Seq<u8>, ended: bool) -> Result<Reading, CodecError> {
    if bytes.len() == 0 {
        if ended {
            Err(CodecError::ConnectionClosed)
        } else {
            Ok(Reading::Incomplete(HEADER_LEN as nat))
        }
    } else if PacketType::of_wire_code(bytes[0]) is None {
        Err(CodecError::ProtocolViolation)
    } else if bytes.len() < HEADER_LEN {
        short_by((HEADER_LEN - bytes.len()) as nat, ended)
    } else if announced_len(bytes) > MAX_PAYLOAD_LEN {
        Err(CodecError::ProtocolViolation)
    } else if bytes.len() < HEADER_LEN + announced_len(bytes) {
        short_by((HEADER_LEN + announced_len(bytes) - bytes.len()) as nat, ended)
    } else {
        Ok(
            Reading::Frame(
                Packet {
                    kind: PacketType::of_wire_code(bytes[0])->0,
                    payload: bytes.subrange(
                        HEADER_LEN as int,
                        HEADER_LEN + announced_len(bytes),
                    ),
                },
                (HEADER_LEN + announced_len(bytes)) as nat,
            ),
        )
    }
}

/// Writes a packet as a frame, unless its payload is over the protocol's
/// bound: such a packet is refused, since every peer would refuse its frame.
pub fn encode(packet: &ConnectionPacket) -> (result: Result<Vec<u8>, CodecError>)
    ensures
        packet.valid() ==> result is Ok && result->Ok_0@ == frame(packet@),
        !packet.valid() ==> result == Err::<Vec<u8>, CodecError>(CodecError::ProtocolViolation),
{
    if packet.packet_data.len() > MAX_PAYLOAD_LEN as usize {
        return Err(CodecError::ProtocolViolation);
    }
    Ok(packet.to_bytes())
}

/// A frame is read back as the packet it was written from, whatever
/// follows it in the buffer, and exactly the frame is taken.
pub proof fn lemma_round_trip(p: Packet, rest: Seq<u8>, ended: bool)
    requires
        p.payload.len() <= MAX_PAYLOAD_LEN,
    ensures
        reading(frame(p) + rest, ended) == Ok::<Reading, CodecError>(
            Reading::Frame(p, frame(p).len()),
        ),
        frame(p).len() == HEADER_LEN + p.payload.len(),
{
    let n = p.payload.len() as u32;
    let bytes = frame(p) + rest;
    lemma_bytes_of_be32(n);
    PacketType::lemma_code_round_trip(p.kind, p.kind.wire_code());
    assert(bytes[0] == p.kind.wire_code());
    assert(bytes[1] == be32(n)[0]);
    assert(bytes[2] == be32(n)[1]);
    assert(bytes[3] == be32(n)[2]);
    assert(bytes[4] == be32(n)[3]);
    assert(announced_len(bytes) == n);
    assert(bytes.subrange(HEADER_LEN as int, HEADER_LEN + n) =~= p.payload);
}

/// A header that announces more than the bound is refused, however many
/// bytes follow it and whether or not the stream has ended.
pub proof fn lemma_oversized_is_refused(bytes: Seq<u8>, ended: bool)
    requires
        bytes.len() >= HEADER_LEN,
        announced_len(bytes) > MAX_PAYLOAD_LEN,
    ensures
        reading(bytes, ended) == Err::<Reading, CodecError>(CodecError::ProtocolViolation),
{
}

/// A frame that `decode` returns is the front of the buffer.
pub proof fn lemma_frame_is_prefix(bytes: Seq<u8>, ended: bool)
    requires
        reading(bytes, ended) matches Ok(Reading::Frame(_, _)),
    ensures
        reading(bytes, ended) matches Ok(Reading::Frame(p, taken)) && taken <= bytes.len()
            && frame(p) == bytes.subrange(0, taken as int),
{
    let n = announced_len(bytes);
    let kind = PacketType::of_wire_code(bytes[0])->0;
    PacketType::lemma_code_round_trip(kind, bytes[0]);
    lemma_be32_of_bytes(bytes[1], bytes[2], bytes[3], bytes[4]);
    let p = Packet { kind, payload: bytes.subrange(HEADER_LEN as int, HEADER_LEN + n) };
    assert(frame(p) =~= bytes.subrange(0, HEADER_LEN + n));
}

/// Reads four bytes as a number, most significant byte first.
pub fn read_be32(b0: u8, b1: u8, b2: u8, b3: u8) -> (n: u32)
    ensures
        n == from_be32(b0, b1, b2, b3),
        be32(n) == seq![b0, b1, b2, b3],
{
    proof {
        lemma_be32_of_bytes(b0, b1, b2, b3);
    }
    (b0 as u32) * 0x100_0000 + (b1 as u32) * 0x1_0000 + (b2 as u32) * 0x100 + (b3 as u32)
}

/// Reads one frame from the front of `buffer`, which holds the bytes
/// received and not yet taken; `end_of_stream` says that the peer has closed
/// its side. A frame is returned only when it is there in full, and the
/// payload is copied only after its announced length has passed the bound.
pub fn decode(buffer: &[u8], end_of_stream: bool) -> (result: Result<Decoded, CodecError>)
    ensures
        match result {
            Ok(decoded) => reading(buffer@, end_of_stream) == Ok::<Reading, CodecError>(decoded@),
            Err(e) => reading(buffer@, end_of_stream) == Err::<Reading, CodecError>(e),
        },
        result matches Ok(Decoded::Frame(packet, _)) ==> packet.valid(),
{
    let len = buffer.len();
    if len == 0 {
        if end_of_stream {
            return Err(CodecError::ConnectionClosed);
        }
        return Ok(Decoded::Incomplete(HEADER_LEN));
    }
    let kind = match PacketType::from_code(buffer[0]) {
        Some(kind) => kind,
        None => {
            return Err(CodecError::ProtocolViolation);
        },
    };
    if len < HEADER_LEN {
        if end_of_stream {
            return Err(CodecError::ProtocolViolation);
        }
        return Ok(Decoded::Incomplete(HEADER_LEN - len));
    }
    let announced = read_be32(buffer[1], buffer[2], buffer[3], buffer[4]);
    if announced > MAX_PAYLOAD_LEN {
        return Err(CodecError::ProtocolViolation);
    }
    let payload_len = announced as usize;
    let total = HEADER_LEN + payload_len;
    if len < total {
        if end_of_stream {
            return Err(CodecError::ProtocolViolation);
        }
        return Ok(Decoded::Incomplete(total - len));
    }
    let payload = vstd::slice::slice_to_vec(slice_subrange(buffer, HEADER_LEN, total));
    Ok(Decoded::Frame(ConnectionPacket { packet_type: kind, packet_data: payload }, total))
}

} // verus!
