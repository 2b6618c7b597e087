use trace_decoder::frontend::varint::encode_varint;
use trace_decoder::useit::{decode_counters, ohe2indices, read_u32};

#[test]
fn mask_to_indices() {
    assert_eq!(ohe2indices(0), Vec::<u32>::new());
    assert_eq!(ohe2indices(1), vec![0]);
    assert_eq!(ohe2indices(0b1010_0100), vec![2, 5, 7]);
    assert_eq!(ohe2indices(0x8000_0001), vec![0, 31]);
    assert_eq!(ohe2indices(u32::MAX), (0..32).collect::<Vec<u32>>());
}

#[test]
fn little_endian_words() {
    assert_eq!(read_u32(&[0x78, 0x56, 0x34, 0x12], 0), Some(0x1234_5678));
    assert_eq!(read_u32(&[0, 0x78, 0x56, 0x34, 0x12], 1), Some(0x1234_5678));
    assert_eq!(read_u32(&[0xff, 0xff, 0xff, 0xff], 0), Some(u32::MAX));
    assert_eq!(read_u32(&[1, 2, 3], 0), None);
    assert_eq!(read_u32(&[1, 2, 3, 4], 1), None);
    assert_eq!(read_u32(&[1, 2, 3, 4], usize::MAX), None);
}

#[test]
fn counter_trace() {
    let mut bytes = vec![0x05, 0x00, 0x00, 0x80];
    for value in [0u64, 300, u64::MAX] {
        bytes.extend(encode_varint(value));
    }
    bytes.push(0x01);
    let trace = decode_counters(&bytes).unwrap();
    assert_eq!(trace.header, 0x8000_0005);
    assert_eq!(trace.target_counters, vec![0, 2, 31]);
    assert_eq!(trace.counters, vec![0, 300, u64::MAX]);
    let header_only = decode_counters(&[1, 0, 0, 0]).unwrap();
    assert_eq!(header_only.target_counters, vec![0]);
    assert!(header_only.counters.is_empty());
    assert!(decode_counters(&[1, 0, 0]).is_none());
}
