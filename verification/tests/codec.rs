use trace_decoder::frontend::c_header::CHeader;
use trace_decoder::frontend::f_header::FHeader;
use trace_decoder::frontend::packet::{
    read_first_packet, read_packet, Packet, PacketError, TraceStream,
};
use trace_decoder::frontend::trap_type::TrapType;
use trace_decoder::frontend::varint::{decode_varint, encode_varint};

fn full_header(f_header: u8, trap_type: u8) -> u8 {
    (trap_type << 5) | (f_header << 2) | 0b10
}

fn sync_packet(target: u64, timestamp: u64) -> Vec<u8> {
    let mut bytes = vec![full_header(0b101, 0)];
    bytes.extend(encode_varint(0));
    bytes.extend(encode_varint(target));
    bytes.extend(encode_varint(timestamp));
    bytes
}

#[test]
fn varint_two_bytes_decode_low_byte_first() {
    assert_eq!(decode_varint(&[0x01, 0x82], 0), Some((0x101, 2)));
}

#[test]
fn varint_single_byte() {
    assert_eq!(decode_varint(&[0x80], 0), Some((0, 1)));
    assert_eq!(decode_varint(&[0xff], 0), Some((127, 1)));
}

#[test]
fn varint_stops_at_first_terminator() {
    assert_eq!(decode_varint(&[0x85, 0x01, 0x82], 0), Some((5, 1)));
    assert_eq!(decode_varint(&[0x85, 0x01, 0x82], 1), Some((0x101, 3)));
}

#[test]
fn varint_truncated_is_none() {
    assert_eq!(decode_varint(&[0x01, 0x02], 0), None);
    assert_eq!(decode_varint(&[], 0), None);
    assert_eq!(decode_varint(&[0x80], 1), None);
    assert_eq!(decode_varint(&[0x80], 7), None);
}

#[test]
fn varint_longer_than_ten_bytes_loses_high_bits() {
    let mut bytes = vec![0x7f; 10];
    bytes.push(0x81);
    // Seventy one-bits, then a one at bit 70: only the low 64 stay.
    assert_eq!(decode_varint(&bytes, 0), Some((u64::MAX, 11)));
}

#[test]
fn varint_encoding_is_shortest() {
    assert_eq!(encode_varint(0), vec![0x80]);
    assert_eq!(encode_varint(127), vec![0xff]);
    assert_eq!(encode_varint(128), vec![0x00, 0x81]);
    assert_eq!(encode_varint(0x101), vec![0x01, 0x82]);
    assert_eq!(encode_varint(u64::MAX).len(), 10);
}

#[test]
fn varint_round_trip() {
    for value in [0u64, 1, 127, 128, 0x101, 0x3fff, 0x4000, 1 << 35, u64::MAX - 1, u64::MAX] {
        let bytes = encode_varint(value);
        assert_eq!(decode_varint(&bytes, 0), Some((value, bytes.len())));
    }
}

#[test]
fn compressed_packet_is_one_byte() {
    for header in [0b00u8, 0b01, 0b11] {
        for ts in 0..64u8 {
            let mut stream = TraceStream::new(vec![(ts << 2) | header, 0xaa]);
            let packet = read_packet(&mut stream).unwrap();
            assert_eq!(stream.pos, 1);
            assert!(packet.is_compressed);
            assert_eq!(packet.timestamp, ts as u64);
            assert!(packet.timestamp <= 63);
            assert_eq!(packet.target_address, 0);
            assert_eq!(packet.trap_address, 0);
            assert_eq!(packet.trap_type, TrapType::TNone);
        }
    }
}

#[test]
fn compressed_headers_map_to_full_headers() {
    let mut stream = TraceStream::new(vec![0b0001_0100, 0b0000_0101, 0b0000_1011]);
    let taken = read_packet(&mut stream).unwrap();
    assert_eq!((taken.c_header, taken.f_header, taken.timestamp), (CHeader::CTb, FHeader::FTb, 5));
    let not_taken = read_packet(&mut stream).unwrap();
    assert_eq!(
        (not_taken.c_header, not_taken.f_header, not_taken.timestamp),
        (CHeader::CNt, FHeader::FNt, 1)
    );
    let jump = read_packet(&mut stream).unwrap();
    assert_eq!((jump.c_header, jump.f_header, jump.timestamp), (CHeader::CIj, FHeader::FIj, 2));
    assert_eq!(read_packet(&mut stream), Err(PacketError::EndOfStream));
}

#[test]
fn full_branch_packets_carry_a_timestamp() {
    for (bits, f_header) in [(0b000, FHeader::FTb), (0b001, FHeader::FNt), (0b011, FHeader::FIj)] {
        let mut bytes = vec![full_header(bits, 0)];
        bytes.extend(encode_varint(300));
        let mut stream = TraceStream::new(bytes);
        let packet = read_packet(&mut stream).unwrap();
        assert_eq!(
            packet,
            Packet {
                is_compressed: false,
                c_header: CHeader::CNa,
                f_header,
                trap_type: TrapType::TNone,
                target_address: 0,
                trap_address: 0,
                timestamp: 300,
            }
        );
        assert_eq!(stream.pos, 3);
    }
}

#[test]
fn uninferable_jump_packet_fields() {
    let mut bytes = vec![full_header(0b010, 0)];
    bytes.extend(encode_varint(0x1234));
    bytes.extend(encode_varint(7));
    let mut stream = TraceStream::new(bytes);
    let packet = read_packet(&mut stream).unwrap();
    assert_eq!(packet.f_header, FHeader::FUj);
    assert_eq!(packet.target_address, 0x1234);
    assert_eq!(packet.timestamp, 7);
    assert!(!packet.is_compressed);
}

#[test]
fn sync_packet_skips_the_branch_mode() {
    let mut bytes = vec![full_header(0b101, 0)];
    bytes.extend(encode_varint(2));
    bytes.extend(encode_varint(0x2000));
    bytes.extend(encode_varint(10));
    let mut stream = TraceStream::new(bytes);
    let packet = read_packet(&mut stream).unwrap();
    assert_eq!(packet.f_header, FHeader::FSync);
    assert_eq!(packet.target_address, 0x2000);
    assert_eq!(packet.timestamp, 10);
}

#[test]
fn trap_packet_fields() {
    for (bits, trap_type) in [
        (0b000, TrapType::TNone),
        (0b001, TrapType::TException),
        (0b010, TrapType::TInterrupt),
        (0b100, TrapType::TReturn),
    ] {
        let mut bytes = vec![full_header(0b100, bits)];
        bytes.extend(encode_varint(0x4010));
        bytes.extend(encode_varint(0x99));
        bytes.extend(encode_varint(3));
        let mut stream = TraceStream::new(bytes);
        let packet = read_packet(&mut stream).unwrap();
        assert_eq!(packet.f_header, FHeader::FTrap);
        assert_eq!(packet.trap_type, trap_type);
        assert_eq!(packet.trap_address, 0x4010);
        assert_eq!(packet.target_address, 0x99);
        assert_eq!(packet.timestamp, 3);
    }
}

#[test]
fn reserved_trap_type_is_malformed() {
    for bits in [0b011u8, 0b101, 0b110, 0b111] {
        let mut bytes = vec![full_header(0b100, bits)];
        bytes.extend(encode_varint(1));
        bytes.extend(encode_varint(2));
        bytes.extend(encode_varint(3));
        let mut stream = TraceStream::new(bytes);
        assert_eq!(read_packet(&mut stream), Err(PacketError::MalformedPacket));
        assert_eq!(stream.pos, 0);
    }
}

#[test]
fn reserved_headers_are_malformed() {
    for bits in [0b110u8, 0b111] {
        let mut stream = TraceStream::new(vec![full_header(bits, 0), 0x80, 0x80, 0x80]);
        assert_eq!(read_packet(&mut stream), Err(PacketError::MalformedPacket));
        assert_eq!(stream.pos, 0);
    }
}

#[test]
fn truncated_packet_is_malformed() {
    let whole = sync_packet(0x2000, 10);
    for cut in 1..whole.len() {
        let mut stream = TraceStream::new(whole[..cut].to_vec());
        assert_eq!(read_packet(&mut stream), Err(PacketError::MalformedPacket));
        assert_eq!(stream.pos, 0);
    }
    let mut stream = TraceStream::new(vec![full_header(0b000, 0), 0x01]);
    assert_eq!(read_packet(&mut stream), Err(PacketError::MalformedPacket));
}

#[test]
fn empty_stream_ends() {
    let mut stream = TraceStream::new(Vec::new());
    assert_eq!(read_packet(&mut stream), Err(PacketError::EndOfStream));
    assert_eq!(read_first_packet(&mut stream), Err(PacketError::EndOfStream));
}

#[test]
fn first_packet_is_a_sync() {
    let mut stream = TraceStream::new(sync_packet(0x2000, 4));
    let packet = read_first_packet(&mut stream).unwrap();
    assert_eq!(packet.c_header, CHeader::CNa);
    assert_eq!(packet.f_header, FHeader::FSync);
    assert_eq!(packet.target_address, 0x2000);
    assert_eq!(packet.timestamp, 4);
    assert_eq!(stream.pos, stream.bytes.len());
}

#[test]
fn first_packet_of_another_kind_is_refused() {
    let mut stream = TraceStream::new(vec![0b0001_0100]);
    assert_eq!(read_first_packet(&mut stream), Err(PacketError::MissingSync));
    assert_eq!(stream.pos, 0);
    let mut bytes = vec![full_header(0b010, 0)];
    bytes.extend(encode_varint(1));
    bytes.extend(encode_varint(2));
    let mut stream = TraceStream::new(bytes);
    assert_eq!(read_first_packet(&mut stream), Err(PacketError::MissingSync));
}

#[test]
fn blank_packet() {
    let packet = Packet::new();
    assert!(!packet.is_compressed);
    assert_eq!(packet.c_header, CHeader::CNa);
    assert_eq!(packet.f_header, FHeader::FRes);
    assert_eq!(packet.trap_type, TrapType::TNone);
    assert_eq!((packet.target_address, packet.trap_address, packet.timestamp), (0, 0, 0));
}

#[test]
fn header_fields_decode() {
    assert_eq!(CHeader::from(0b00), CHeader::CTb);
    assert_eq!(CHeader::from(0b01), CHeader::CNt);
    assert_eq!(CHeader::from(0b10), CHeader::CNa);
    assert_eq!(CHeader::from(0b11), CHeader::CIj);
    assert_eq!(FHeader::from(0b000), FHeader::FTb);
    assert_eq!(FHeader::from(0b001), FHeader::FNt);
    assert_eq!(FHeader::from(0b010), FHeader::FUj);
    assert_eq!(FHeader::from(0b011), FHeader::FIj);
    assert_eq!(FHeader::from(0b100), FHeader::FTrap);
    assert_eq!(FHeader::from(0b101), FHeader::FSync);
    assert_eq!(FHeader::from(0b110), FHeader::FVal);
    assert_eq!(FHeader::from(0b111), FHeader::FRes);
    assert_eq!(FHeader::from_c_header(CHeader::CTb), FHeader::FTb);
    assert_eq!(FHeader::from_c_header(CHeader::CNt), FHeader::FNt);
    assert_eq!(FHeader::from_c_header(CHeader::CIj), FHeader::FIj);
    assert_eq!(TrapType::from(0b000), TrapType::TNone);
    assert_eq!(TrapType::from(0b001), TrapType::TException);
    assert_eq!(TrapType::from(0b010), TrapType::TInterrupt);
    assert_eq!(TrapType::from(0b100), TrapType::TReturn);
    assert!(TrapType::is_valid(0b100));
    assert!(!TrapType::is_valid(0b011));
}
