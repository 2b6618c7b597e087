use vstd::prelude::*;
use crate::frontend::c_header::{CHeader, C_HEADER_MASK, C_TIMESTAMP_MASK};
use crate::frontend::f_header::{FHeader, FHEADER_OFFSET, F_HEADER_MASK};
use crate::frontend::trap_type::{TrapType, TRAP_TYPE_MASK, TRAP_TYPE_OFFSET};
use crate::frontend::varint::{decode_varint, lemma_varint_end_bounds, varint_at, varint_end};

verus! {

/// One record of the trace.
#[derive(Debug, Clone, Copy, PartialEq, Eq, Structural)]
pub struct Packet {
    pub is_compressed: bool,
    pub c_header: CHeader,
    pub f_header: FHeader,
    pub trap_type: TrapType,
    /// The target address as transmitted: without its low bit, and for
    /// jumps and traps combined with the current address.
    pub target_address: u64,
    pub trap_address: u64,
    /// For a compressed packet the six-bit field itself, for a full packet
    /// the time since the packet before.
    pub timestamp: u64,
}

/// Why no packet could be read.
#[derive(Debug, Clone, Copy, PartialEq, Eq, Structural)]
pub enum PacketError {
    /// The stream ends where a packet would begin.
    EndOfStream,
    /// The header is a reserved one, or the stream ends within the packet.
    MalformedPacket,
    /// The stream does not open with a synchronization packet.
    MissingSync,
}

/// A trace held in memory, and how far it has been read.
pub struct TraceStream {
    pub bytes: Vec<u8>,
    pub pos: usize,
}

impl Packet {
    /// A full packet with a reserved header and every field zero.
    pub open spec fn blank() -> Packet {
        Packet {
            is_compressed: false,
            c_header: CHeader::CNa,
            f_header: FHeader::FRes,
            trap_type: TrapType::TNone,
            target_address: 0,
            trap_address: 0,
            timestamp: 0,
        }
    }

    /// The packet that a single byte with a compressed header stands for.
    pub open spec fn compressed(first: u8) -> Packet {
        Packet {
            is_compressed: true,
            c_header: CHeader::of_bits(first & C_HEADER_MASK),
            f_header: FHeader::of_compressed(CHeader::of_bits(first & C_HEADER_MASK)),
            timestamp: ((first & C_TIMESTAMP_MASK) >> 2) as u64,
            ..Self::blank()
        }
    }

    /// A full packet with the given header and fields.
    pub open spec fn full(
        f_header: FHeader,
        trap_type: TrapType,
        trap_address: u64,
        target_address: u64,
        timestamp: u64,
    ) -> Packet {
        Packet {
            is_compressed: false,
            c_header: CHeader::CNa,
            f_header,
            trap_type,
            target_address,
            trap_address,
            timestamp,
        }
    }

    /// Whether the packet is a synchronization packet.
    pub open spec fn is_sync(self) -> bool {
        self.c_header == CHeader::CNa && self.f_header == FHeader::FSync
    }

    /// A packet to fill in: full, reserved, every field zero.
    pub fn new() -> (packet: Packet)
        ensures
            packet == Self::blank(),
    {
        Packet {
            is_compressed: false,
            c_header: CHeader::CNa,
            f_header: FHeader::FRes,
            trap_type: TrapType::TNone,
            target_address: 0,
            trap_address: 0,
            timestamp: 0,
        }
    }
}

/// The full header in the first byte of a full packet.
pub open spec fn full_header_of(first: u8) -> FHeader {
    FHeader::of_bits((first & F_HEADER_MASK) >> FHEADER_OFFSET)
}

/// The trap-type field in the first byte of a trap packet.
pub open spec fn trap_bits_of(first: u8) -> u8 {
    (first & TRAP_TYPE_MASK) >> TRAP_TYPE_OFFSET
}

/// The fields of a full packet whose header byte is `first`, read from
/// `pos` on: the packet and the position after it, or `None` where the
/// header is reserved or the stream ends too early.
pub open spec fn full_packet_at(stream: Seq<u8>, first: u8, pos: int) -> Option<(Packet, int)> {
    let f_header = full_header_of(first);
    match f_header {
        FHeader::FTb | FHeader::FNt | FHeader::FIj => match varint_at(stream, pos) {
            Some((timestamp, end)) => Some(
                (Packet::full(f_header, TrapType::TNone, 0, 0, timestamp), end),
            ),
            None => None,
        },
        FHeader::FUj => match varint_at(stream, pos) {
            Some((target, after_target)) => match varint_at(stream, after_target) {
                Some((timestamp, end)) => Some(
                    (Packet::full(f_header, TrapType::TNone, 0, target, timestamp), end),
                ),
                None => None,
            },
            None => None,
        },
        FHeader::FSync => match varint_at(stream, pos) {
            Some((_mode, after_mode)) => match varint_at(stream, after_mode) {
                Some((target, after_target)) => match varint_at(stream, after_target) {
                    Some((timestamp, end)) => Some(
                        (Packet::full(f_header, TrapType::TNone, 0, target, timestamp), end),
                    ),
                    None => None,
                },
                None => None,
            },
            None => None,
        },
        FHeader::FTrap => if !TrapType::valid_bits(trap_bits_of(first)) {
            None
        } else {
            match varint_at(stream, pos) {
                Some((trap, after_trap)) => match varint_at(stream, after_trap) {
                    Some((target, after_target)) => match varint_at(stream, after_target) {
                        Some((timestamp, end)) => Some(
                            (
                                Packet::full(
                                    f_header,
                                    TrapType::of_bits(trap_bits_of(first)),
                                    trap,
                                    target,
                                    timestamp,
                                ),
                                end,
                            ),
                        ),
                        None => None,
                    },
                    None => None,
                },
                None => None,
            }
        },
        FHeader::FVal | FHeader::FRes => None,
    }
}

/// The packet that starts at `pos`, with the position after it.
pub open spec fn packet_at(stream: Seq<u8>, pos: int) -> Result<(Packet, int), PacketError> {
    if pos < 0 || pos >= stream.len() {
        Err(PacketError::EndOfStream)
    } else if CHeader::of_bits(stream[pos] & C_HEADER_MASK).is_compressed() {
        Ok((Packet::compressed(stream[pos]), pos + 1))
    } else {
        match full_packet_at(stream, stream[pos], pos + 1) {
            Some(found) => Ok(found),
            None => Err(PacketError::MalformedPacket),
        }
    }
}

/// The packet that opens the stream: the one that starts at `pos`, which
/// has to be a synchronization packet.
pub open spec fn first_packet_at(stream: Seq<u8>, pos: int) -> Result<(Packet, int), PacketError> {
    match packet_at(stream, pos) {
        Ok((packet, end)) => if packet.is_sync() {
            Ok((packet, end))
        } else {
            Err(PacketError::MissingSync)
        },
        Err(e) => Err(e),
    }
}

/// A packet ends after it starts, and within the stream.
pub proof fn lemma_packet_bounds(stream: Seq<u8>, pos: int)
    requires
        packet_at(stream, pos).is_ok(),
    ensures
        0 <= pos < packet_at(stream, pos).unwrap().1 <= stream.len(),
{
    let first = stream[pos];
    if !CHeader::of_bits(first & C_HEADER_MASK).is_compressed() {
        let a = varint_end(stream, pos + 1);
        lemma_varint_end_bounds(stream, pos + 1);
        let f_header = full_header_of(first);
        if f_header == FHeader::FUj || f_header == FHeader::FSync || f_header == FHeader::FTrap {
            let b = varint_end(stream, a.unwrap());
            lemma_varint_end_bounds(stream, a.unwrap());
            if f_header != FHeader::FUj {
                lemma_varint_end_bounds(stream, b.unwrap());
            }
        }
    }
}

/// A packet with a compressed header is one byte long, and its timestamp
/// is a six-bit number.
pub proof fn lemma_compressed_packet_is_one_byte(stream: Seq<u8>, pos: int)
    requires
        packet_at(stream, pos).is_ok(),
        packet_at(stream, pos).unwrap().0.c_header.is_compressed(),
    ensures
        packet_at(stream, pos).unwrap().1 == pos + 1,
        packet_at(stream, pos).unwrap().0.is_compressed,
        packet_at(stream, pos).unwrap().0.timestamp <= 63,
{
    let first = stream[pos];
    assert(((first & 0b1111_1100u8) >> 2u8) <= 63) by (bit_vector);
}

impl TraceStream {
    /// A stream over the given bytes, with nothing read.
    pub fn new(bytes: Vec<u8>) -> (stream: TraceStream)
        ensures
            stream.bytes == bytes,
            stream.pos == 0,
    {
        TraceStream { bytes, pos: 0 }
    }
}

/// Reads one byte, if any is left.
fn read_u8(stream: &mut TraceStream) -> (byte: Option<u8>)
    ensures
        final(stream).bytes == old(stream).bytes,
        match byte {
            Some(b) => old(stream).pos < old(stream).bytes@.len() && b == old(stream).bytes@[old(stream).pos as int] && final(stream).pos == old(stream).pos + 1,
            None => old(stream).pos >= old(stream).bytes@.len() && final(stream).pos == old(stream).pos,
        },
{
    if stream.pos < stream.bytes.len() {
        let byte = stream.bytes[stream.pos];
        stream.pos += 1;
        Some(byte)
    } else {
        None
    }
}

/// Reads one varint. Where the stream ends within it, nothing is read.
fn read_varint(stream: &mut TraceStream) -> (value: Option<u64>)
    ensures
        final(stream).bytes == old(stream).bytes,
        match value {
            Some(v) => varint_at(old(stream).bytes@, old(stream).pos as int) == Some(
                (v, final(stream).pos as int),
            ),
            None => varint_at(old(stream).bytes@, old(stream).pos as int).is_none() && final(stream).pos == old(stream).pos,
        },
{
    match decode_varint(stream.bytes.as_slice(), stream.pos) {
        Some((value, end)) => {
            stream.pos = end;
            Some(value)
        },
        None => None,
    }
}

/// Reads the next packet of the trace. Where there is none, or none that is
/// well formed, the stream stays where it was.
pub fn read_packet(stream: &mut TraceStream) -> (result: Result<Packet, PacketError>)
    ensures
        final(stream).bytes == old(stream).bytes,
        match packet_at(old(stream).bytes@, old(stream).pos as int) {
            Ok((packet, end)) => result == Ok::<Packet, PacketError>(packet) && final(stream).pos
                == end,
            Err(e) => result == Err::<Packet, PacketError>(e) && final(stream).pos == old(stream).pos,
        },
        result is Ok && result.unwrap().c_header.is_compressed() ==> final(stream).pos == old(
            stream).pos + 1 && result.unwrap().timestamp <= 63,
        result is Ok ==> old(stream).pos < final(stream).pos <= old(stream).bytes@.len(),
{
    let start = stream.pos;
    proof {
        if packet_at(stream.bytes@, start as int).is_ok() {
            lemma_packet_bounds(stream.bytes@, start as int);
            if packet_at(stream.bytes@, start as int).unwrap().0.c_header.is_compressed() {
                lemma_compressed_packet_is_one_byte(stream.bytes@, start as int);
            }
        }
    }
    let mut packet = Packet::new();
    let first_byte = match read_u8(stream) {
        Some(byte) => byte,
        None => {
            return Err(PacketError::EndOfStream);
        },
    };
    assert(first_byte & 0b0000_0011u8 <= 0b11) by (bit_vector);
    let c_header = CHeader::from(first_byte & C_HEADER_MASK);
    match c_header {
        CHeader::CTb | CHeader::CNt | CHeader::CIj => {
            packet.timestamp = ((first_byte & C_TIMESTAMP_MASK) >> 2) as u64;
            packet.f_header = FHeader::from_c_header(c_header);
            packet.c_header = c_header;
            packet.is_compressed = true;
            Ok(packet)
        },
        CHeader::CNa => {
            assert((first_byte & 0b0001_1100u8) >> 2u8 <= 0b111) by (bit_vector);
            let f_header = FHeader::from((first_byte & F_HEADER_MASK) >> FHEADER_OFFSET);
            packet.f_header = f_header;
            let fields: usize = match f_header {
                FHeader::FTb | FHeader::FNt | FHeader::FIj => 1,
                FHeader::FUj => 2,
                FHeader::FSync | FHeader::FTrap => 3,
                FHeader::FVal | FHeader::FRes => 0,
            };
            if fields == 0 {
                stream.pos = start;
                return Err(PacketError::MalformedPacket);
            }
            if f_header == FHeader::FTrap {
                let trap_bits = (first_byte & TRAP_TYPE_MASK) >> TRAP_TYPE_OFFSET;
                if !TrapType::is_valid(trap_bits) {
                    stream.pos = start;
                    return Err(PacketError::MalformedPacket);
                }
                packet.trap_type = TrapType::from(trap_bits);
            }
            if fields == 3 {
                let leading = match read_varint(stream) {
                    Some(value) => value,
                    None => {
                        stream.pos = start;
                        return Err(PacketError::MalformedPacket);
                    },
                };
                if f_header == FHeader::FTrap {
                    packet.trap_address = leading;
                }
            }
            if fields >= 2 {
                packet.target_address = match read_varint(stream) {
                    Some(value) => value,
                    None => {
                        stream.pos = start;
                        return Err(PacketError::MalformedPacket);
                    },
                };
            }
            packet.timestamp = match read_varint(stream) {
                Some(value) => value,
                None => {
                    stream.pos = start;
                    return Err(PacketError::MalformedPacket);
                },
            };
            Ok(packet)
        },
    }
}

/// Reads the packet that opens a trace. It has to be a synchronization
/// packet: it gives the address and the time at which the trace starts.
pub fn read_first_packet(stream: &mut TraceStream) -> (result: Result<Packet, PacketError>)
    ensures
        final(stream).bytes == old(stream).bytes,
        match first_packet_at(old(stream).bytes@, old(stream).pos as int) {
            Ok((packet, end)) => result == Ok::<Packet, PacketError>(packet) && final(stream).pos
                == end,
            Err(e) => result == Err::<Packet, PacketError>(e) && final(stream).pos == old(stream).pos,
        },
        result is Ok ==> old(stream).pos < final(stream).pos <= old(stream).bytes@.len(),
{
    let start = stream.pos;
    match read_packet(stream) {
        Ok(packet) => {
            if packet.c_header == CHeader::CNa && packet.f_header == FHeader::FSync {
                Ok(packet)
            } else {
                stream.pos = start;
                Err(PacketError::MissingSync)
            }
        },
        Err(e) => Err(e),
    }
}

} // verus!
