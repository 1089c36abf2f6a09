use wasm_inject::patch::PatchError;
use wasm_inject::segment::{
    encode_payload, load_from_data, load_slice_from_data, memory_init, read_embedded_message,
    u32_from_be,
};

#[test]
fn length_encoding_for_hi() {
    let bytes = encode_payload(&b"hi".to_vec()).expect("payload is acceptable");
    assert_eq!(bytes, vec![0x00, 0x00, 0x00, 0x03, 0x68, 0x69, 0x00]);
}

#[test]
fn length_prefix_counts_terminator() {
    let bytes = encode_payload(&b"abcde".to_vec()).expect("payload is acceptable");
    assert_eq!(&bytes[0..4], &[0x00, 0x00, 0x00, 0x06]);
    assert_eq!(bytes.len(), 4 + 5 + 1);
    assert_eq!(*bytes.last().unwrap(), 0x00);
}

#[test]
fn embedded_terminator_rejected_by_encoder() {
    let r = encode_payload(&vec![1, 2, 0, 3]);
    assert_eq!(r.unwrap_err(), PatchError::PayloadEncodingError);
}

#[test]
fn big_endian_combination() {
    assert_eq!(u32_from_be(0x00, 0x00, 0x01, 0x02), 258);
    assert_eq!(u32_from_be(0xde, 0xad, 0xbe, 0xef), 0xdead_beef);
    assert_eq!(u32_from_be(0xff, 0xff, 0xff, 0xff), u32::MAX);
}

#[test]
fn memory_init_copies_requested_range() {
    let data = vec![9, 8, 7, 6, 5];
    let mut mem = vec![0u8; 8];
    memory_init(&mut mem, &data, 2, 1, 3);
    assert_eq!(mem, vec![0, 0, 8, 7, 6, 0, 0, 0]);
}

#[test]
fn memory_init_of_zero_bytes_changes_nothing() {
    let data = vec![1, 2, 3];
    let mut mem = vec![4u8, 5, 6];
    memory_init(&mut mem, &data, 1, 0, 0);
    assert_eq!(mem, vec![4, 5, 6]);
}

#[test]
fn load_functions_return_the_slice() {
    let data = vec![10, 20, 30, 40, 50];
    assert_eq!(load_from_data(&data, 1, 3), vec![20, 30, 40]);
    assert_eq!(load_slice_from_data(&data, 0, 5), data);
    assert_eq!(load_slice_from_data(&data, 4, 1), vec![50]);
}

#[test]
fn round_trip_through_memory_like_the_guest() {
    let payload = b"hello guest".to_vec();
    let segment = encode_payload(&payload).expect("payload is acceptable");
    // the rewritten placeholder copies the segment into linear memory
    let mut mem = vec![0u8; 64];
    memory_init(&mut mem, &segment, 16, 0, segment.len() as u32);
    // the guest reads the prefix, then the zero-terminated run
    let len_bytes = load_slice_from_data(&mem, 16, 4);
    let n = u32_from_be(len_bytes[0], len_bytes[1], len_bytes[2], len_bytes[3]);
    assert_eq!(n as usize, payload.len() + 1);
    let run = load_slice_from_data(&mem, 20, n);
    assert_eq!(&run[..payload.len()], &payload[..]);
    assert_eq!(run[payload.len()], 0);
}

#[test]
fn read_embedded_message_decodes_segment() {
    let payload = b"xyz".to_vec();
    let segment = encode_payload(&payload).expect("payload is acceptable");
    assert_eq!(read_embedded_message(&segment), Some(payload));
}

#[test]
fn read_embedded_message_rejects_bad_segments() {
    // too short for a prefix
    assert_eq!(read_embedded_message(&vec![0, 0, 1]), None);
    // prefix overruns the segment
    assert_eq!(read_embedded_message(&vec![0, 0, 0, 9, 1, 2]), None);
    // no terminator inside the announced run
    assert_eq!(read_embedded_message(&vec![0, 0, 0, 2, 7, 7]), None);
}
