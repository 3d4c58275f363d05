//! Packets and their kinds.

use vstd::prelude::*;
use vstd::string::StringSliceAdditionalSpecFns;
use vstd::utf8::{decode_utf8, encode_utf8_decode_utf8, valid_utf8};

verus! {

/// The error of `core::str::from_utf8`, carried through as it is.
#[verifier::external_type_specification]
#[verifier::external_body]
pub struct ExUtf8Error(core::str::Utf8Error);

/// `core::str::from_utf8` accepts exactly the byte slices that are valid
/// UTF-8, and the text it returns is made of the bytes it was given.
pub assume_specification<'a>[ core::str::from_utf8 ](bytes: &'a [u8]) -> (text: Result<
    &'a str,
    core::str::Utf8Error,
>)
    ensures
        text is Ok <==> valid_utf8(bytes@),
        text matches Ok(s) ==> s.spec_bytes() == bytes@,
;

/// Largest payload, in bytes, that a frame of this protocol may carry.
pub const MAX_PAYLOAD_LEN: u32 = 1_048_576;

/// The kinds of packet that the protocol knows, each with a fixed wire code.
#[derive(Clone, Copy, Debug, PartialEq, Eq, Structural)]
pub enum PacketType {
    InitialGreet,
    NewSession,
    ExistingSession,
    ReadyForTransmission,
    MediaData,
    CloseConnection,
}

impl PacketType {
    /// The wire code of a packet kind.
    pub open spec fn wire_code(self) -> u8 {
        match self {
            PacketType::InitialGreet => 1,
            PacketType::NewSession => 2,
            PacketType::ExistingSession => 3,
            PacketType::ReadyForTransmission => 10,
            PacketType::MediaData => 20,
            PacketType::CloseConnection => 100,
        }
    }

    /// The packet kind that a wire code stands for, if any.
    pub open spec fn of_wire_code(code: u8) -> Option<PacketType> {
        if code == 1 {
            Some(PacketType::InitialGreet)
        } else if code == 2 {
            Some(PacketType::NewSession)
        } else if code == 3 {
            Some(PacketType::ExistingSession)
        } else if code == 10 {
            Some(PacketType::ReadyForTransmission)
        } else if code == 20 {
            Some(PacketType::MediaData)
        } else if code == 100 {
            Some(PacketType::CloseConnection)
        } else {
            None
        }
    }

    /// Returns the code that stands for this kind on the wire.
    pub fn code(self) -> (c: u8)
        ensures
            c == self.wire_code(),
    {
        match self {
            PacketType::InitialGreet => 1,
            PacketType::NewSession => 2,
            PacketType::ExistingSession => 3,
            PacketType::ReadyForTransmission => 10,
            PacketType::MediaData => 20,
            PacketType::CloseConnection => 100,
        }
    }

    /// Reads a wire code; an unknown code gives `None`.
    pub fn from_code(code: u8) -> (kind: Option<PacketType>)
        ensures
            kind == Self::of_wire_code(code),
    {
        match code {
            1 => Some(PacketType::InitialGreet),
            2 => Some(PacketType::NewSession),
            3 => Some(PacketType::ExistingSession),
            10 => Some(PacketType::ReadyForTransmission),
            20 => Some(PacketType::MediaData),
            100 => Some(PacketType::CloseConnection),
            _ => None,
        }
    }

    /// Reading the code of a kind gives that kind back, and a code that is
    /// read as a kind is the code of that kind.
    pub proof fn lemma_code_round_trip(kind: PacketType, code: u8)
        ensures
            Self::of_wire_code(kind.wire_code()) == Some(kind),
            Self::of_wire_code(code) == Some(kind) ==> kind.wire_code() == code,
    {
    }
}

/// A packet as the contracts see it: its kind and the bytes it carries.
pub struct Packet {
    pub kind: PacketType,
    pub payload: Seq<u8>,
}

/// The four bytes that hold `n`, most significant byte first.
pub open spec fn be32(n: u32) -> Seq<u8> {
    seq![
        (n / 0x100_0000) as u8,
        ((n / 0x1_0000) % 0x100) as u8,
        ((n / 0x100) % 0x100) as u8,
        (n % 0x100) as u8,
    ]
}

/// The number that four bytes hold, most significant byte first.
pub open spec fn from_be32(b0: u8, b1: u8, b2: u8, b3: u8) -> u32 {
    (b0 * 0x100_0000 + b1 * 0x1_0000 + b2 * 0x100 + b3) as u32
}

/// Four bytes written as a number and written out again are the same bytes.
pub proof fn lemma_be32_of_bytes(b0: u8, b1: u8, b2: u8, b3: u8)
    ensures
        be32(from_be32(b0, b1, b2, b3)) == seq![b0, b1, b2, b3],
{
    let n: int = b0 * 0x100_0000 + b1 * 0x1_0000 + b2 * 0x100 + b3;
    let r1: int = b0 * 0x1_0000 + b1 * 0x100 + b2;
    let r2: int = b0 * 0x100 + b1;
    assert(n == r1 * 0x100 + b3);
    assert(n / 0x100 == r1 && n % 0x100 == b3);
    assert(r1 == r2 * 0x100 + b2);
    assert(r1 / 0x100 == r2 && r1 % 0x100 == b2);
    assert(n / 0x1_0000 == r2);
    assert(r2 == b0 * 0x100 + b1);
    assert(r2 / 0x100 == b0 && r2 % 0x100 == b1);
    assert(n / 0x100_0000 == b0);
    assert(from_be32(b0, b1, b2, b3) == n);
    assert(be32(n as u32) =~= seq![b0, b1, b2, b3]);
}

/// A number written out as four bytes and read again is the same number.
pub proof fn lemma_bytes_of_be32(n: u32)
    ensures
        be32(n).len() == 4,
        from_be32(be32(n)[0], be32(n)[1], be32(n)[2], be32(n)[3]) == n,
{
    let q1: int = (n / 0x100) as int;
    let q2: int = (n / 0x1_0000) as int;
    let q3: int = (n / 0x100_0000) as int;
    assert(n == q1 * 0x100 + n % 0x100);
    assert(q2 == q1 / 0x100);
    assert(q1 == q2 * 0x100 + q1 % 0x100);
    assert(q3 == q2 / 0x100);
    assert(q2 == q3 * 0x100 + q2 % 0x100);
    assert(q1 % 0x100 == (n / 0x100) % 0x100);
    assert(q2 % 0x100 == (n / 0x1_0000) % 0x100);
    assert(0 <= q3 < 0x100);
}

/// The frame of a packet: one byte for the kind, four bytes for the length
/// of the payload, most significant byte first, then the payload.
pub open spec fn frame(p: Packet) -> Seq<u8> {
    seq![p.kind.wire_code()] + be32(p.payload.len() as u32) + p.payload
}

/// One packet of the protocol.
#[derive(Debug, PartialEq, Eq)]
pub struct ConnectionPacket {
    pub packet_type: PacketType,
    pub packet_data: Vec<u8>,
}

impl View for ConnectionPacket {
    type V = Packet;

    open spec fn view(&self) -> Packet {
        Packet { kind: self.packet_type, payload: self.packet_data@ }
    }
}

impl Clone for ConnectionPacket {
    fn clone(&self) -> (copy: Self)
        ensures
            copy@ == self@,
    {
        ConnectionPacket { packet_type: self.packet_type, packet_data: self.packet_data.clone() }
    }
}

impl ConnectionPacket {
    /// The length of the payload can be written into the four-byte field.
    pub open spec fn encodable(&self) -> bool {
        self.packet_data@.len() <= u32::MAX
    }

    /// The payload is within the protocol's bound: a peer will accept the frame.
    pub open spec fn valid(&self) -> bool {
        self.packet_data@.len() <= MAX_PAYLOAD_LEN
    }

    /// Makes a packet, unless the payload is over the protocol's bound.
    pub fn new(packet_type: PacketType, packet_data: Vec<u8>) -> (packet: Option<ConnectionPacket>)
        ensures
            packet is Some <==> packet_data@.len() <= MAX_PAYLOAD_LEN,
            packet matches Some(p) ==> p@ == (Packet { kind: packet_type, payload: packet_data@ })
                && p.valid(),
    {
        if packet_data.len() > MAX_PAYLOAD_LEN as usize {
            None
        } else {
            Some(ConnectionPacket { packet_type, packet_data })
        }
    }

    /// Writes the packet as a frame.
    pub fn to_bytes(&self) -> (bytes: Vec<u8>)
        requires
            self.encodable(),
        ensures
            bytes@ == frame(self@),
    {
        let len: u32 = self.packet_data.len() as u32;
        let mut bytes: Vec<u8> = Vec::new();
        bytes.push(self.packet_type.code());
        bytes.push((len / 0x100_0000) as u8);
        bytes.push(((len / 0x1_0000) % 0x100) as u8);
        bytes.push(((len / 0x100) % 0x100) as u8);
        bytes.push((len % 0x100) as u8);
        let ghost head = bytes@;
        bytes.extend_from_slice(self.packet_data.as_slice());
        assert(bytes@ =~= head + self.packet_data@);
        assert(head =~= seq![self.packet_type.wire_code()] + be32(len));
        bytes
    }

    /// Reads the payload as text. It succeeds exactly when the payload is
    /// valid UTF-8, and the text is then the payload decoded.
    pub fn to_string(&self) -> (text: Result<&str, core::str::Utf8Error>)
        ensures
            text is Ok <==> valid_utf8(self.packet_data@),
            text matches Ok(s) ==> s@ == decode_utf8(self.packet_data@),
    {
        let text = core::str::from_utf8(self.packet_data.as_slice());
        proof {
            if let Ok(s) = text {
                encode_utf8_decode_utf8(s@);
            }
        }
        text
    }
}

/// A run of bytes cut into pieces of `size` bytes, the last of which may
/// be shorter; no piece is empty.
pub open spec fn pieces(data: Seq<u8>, size: nat) -> Seq<Seq<u8>>
    decreases data.len(),
{
    if data.len() == 0 || size == 0 {
        Seq::empty()
    } else if data.len() <= size {
        seq![data]
    } else {
        seq![data.take(size as int)] + pieces(data.skip(size as int), size)
    }
}

/// The pieces put end to end.
pub open spec fn joined(pieces: Seq<Seq<u8>>) -> Seq<u8>
    decreases pieces.len(),
{
    if pieces.len() == 0 {
        Seq::empty()
    } else {
        pieces[0] + joined(pieces.drop_first())
    }
}

/// The media packet that carries one piece.
pub open spec fn media_packet(piece: Seq<u8>) -> Packet {
    Packet { kind: PacketType::MediaData, payload: piece }
}

/// Cutting a run of bytes into pieces loses nothing and adds nothing: the
/// pieces put end to end are the run, and each piece has between one and
/// `size` bytes.
pub proof fn lemma_pieces_join(data: Seq<u8>, size: nat)
    requires
        size > 0,
    ensures
        joined(pieces(data, size)) == data,
        forall|i: int|
            0 <= i < pieces(data, size).len() ==> 0 < (#[trigger] pieces(data, size)[i]).len()
                <= size,
    decreases data.len(),
{
    let all = pieces(data, size);
    if data.len() == 0 {
        assert(joined(all) =~= data);
    } else if data.len() <= size {
        assert(all.drop_first() =~= Seq::<Seq<u8>>::empty());
        assert(joined(all.drop_first()) =~= Seq::<u8>::empty());
        assert(joined(all) =~= data);
    } else {
        let rest = pieces(data.skip(size as int), size);
        lemma_pieces_join(data.skip(size as int), size);
        assert(all.drop_first() =~= rest);
        assert(joined(all) =~= data.take(size as int) + data.skip(size as int));
        assert(data.take(size as int) + data.skip(size as int) =~= data);
        assert forall|i: int| 0 <= i < all.len() implies 0 < (#[trigger] all[i]).len() <= size by {
            if i > 0 {
                assert(all[i] == rest[i - 1]);
            }
        }
    }
}

/// Cuts the bytes of a media stream into media packets of at most
/// `chunk_len` bytes each, in the order of the stream.
pub fn media_packets(data: &[u8], chunk_len: usize) -> (packets: Vec<ConnectionPacket>)
    requires
        0 < chunk_len <= MAX_PAYLOAD_LEN,
    ensures
        packets@.map_values(|p: ConnectionPacket| p@) == pieces(data@, chunk_len as nat).map_values(
            |piece: Seq<u8>| media_packet(piece),
        ),
        forall|i: int| 0 <= i < packets@.len() ==> (#[trigger] packets@[i]).valid(),
{
    let len = data.len();
    let mut packets: Vec<ConnectionPacket> = Vec::new();
    let mut start: usize = 0;
    assert(data@.skip(0) =~= data@);
    while start < len
        invariant
            start <= len,
            len == data@.len(),
            0 < chunk_len <= MAX_PAYLOAD_LEN,
            packets@.map_values(|p: ConnectionPacket| p@) + pieces(
                data@.skip(start as int),
                chunk_len as nat,
            ).map_values(|piece: Seq<u8>| media_packet(piece)) == pieces(
                data@,
                chunk_len as nat,
            ).map_values(|piece: Seq<u8>| media_packet(piece)),
            forall|i: int| 0 <= i < packets@.len() ==> (#[trigger] packets@[i]).valid(),
        decreases len - start,
    {
        let end = if len - start <= chunk_len {
            len
        } else {
            start + chunk_len
        };
        let ghost before = packets@.map_values(|p: ConnectionPacket| p@);
        let ghost tail = data@.skip(start as int);
        let payload = vstd::slice::slice_to_vec(vstd::slice::slice_subrange(data, start, end));
        let packet = ConnectionPacket { packet_type: PacketType::MediaData, packet_data: payload };
        packets.push(packet);
        proof {
            let size = chunk_len as nat;
            let rest = data@.skip(end as int);
            assert(packets@.map_values(|p: ConnectionPacket| p@) =~= before.push(packet@));
            if tail.len() <= size {
                assert(payload@ =~= tail);
                assert(rest.len() == 0);
                assert(pieces(tail, size) =~= seq![tail] + pieces(rest, size));
            } else {
                assert(payload@ =~= tail.take(size as int));
                assert(tail.skip(size as int) =~= rest);
            }
            assert(pieces(tail, size) =~= seq![payload@] + pieces(rest, size));
            assert(pieces(tail, size).map_values(|piece: Seq<u8>| media_packet(piece)) =~= seq![
                packet@,
            ] + pieces(rest, size).map_values(|piece: Seq<u8>| media_packet(piece)));
            assert(before.push(packet@) + pieces(rest, size).map_values(
                |piece: Seq<u8>| media_packet(piece),
            ) =~= before + (seq![packet@] + pieces(rest, size).map_values(
                |piece: Seq<u8>| media_packet(piece),
            )));
        }
        start = end;
    }
    assert(pieces(data@.skip(start as int), chunk_len as nat).len() == 0);
    assert(packets@.map_values(|p: ConnectionPacket| p@) =~= packets@.map_values(
        |p: ConnectionPacket| p@,
    ) + pieces(data@.skip(start as int), chunk_len as nat).map_values(
        |piece: Seq<u8>| media_packet(piece),
    ));
    packets
}

} // verus!
