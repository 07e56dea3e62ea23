use lan_remote_core::codec::{encode_udp_datagram, parse_udp_datagram, Datagram, UDP_HEADER_SIZE};
use lan_remote_core::stream_id::{parse_stream_id_hex, stream_id_to_hex};

fn sample_datagram() -> Datagram {
    Datagram {
        stream_id: vec![0, 1, 2, 3, 4, 5, 6, 7, 8, 9, 10, 11, 12, 13, 14, 15],
        seq: 42,
        timestamp_us: 123_456_789_012,
        flags: 1,
        chunk_index: 2,
        total_chunks: 5,
        payload: vec![9, 8, 7, 6],
    }
}

#[test]
fn encode_layout_is_fixed() {
    let bytes = encode_udp_datagram(&sample_datagram());
    assert_eq!(bytes.len(), UDP_HEADER_SIZE + 4);
    assert_eq!(bytes[0], 0x4f);
    assert_eq!(bytes[1], 0x44);
    assert_eq!(bytes[2], 1);
    assert_eq!(bytes[3], 1);
    assert_eq!(&bytes[4..20], &[0, 1, 2, 3, 4, 5, 6, 7, 8, 9, 10, 11, 12, 13, 14, 15]);
    assert_eq!(&bytes[20..24], &[0, 0, 0, 42]);
    assert_eq!(&bytes[32..34], &[0, 2]);
    assert_eq!(&bytes[34..36], &[0, 5]);
    assert_eq!(&bytes[36..38], &[0, 4]);
    assert_eq!(&bytes[38..], &[9, 8, 7, 6]);
}

#[test]
fn parse_encode_round_trip() {
    let d = sample_datagram();
    let bytes = encode_udp_datagram(&d);
    let parsed = parse_udp_datagram(&bytes).expect("round trip must parse");
    assert_eq!(parsed.stream_id, d.stream_id);
    assert_eq!(parsed.seq, d.seq);
    assert_eq!(parsed.timestamp_us, d.timestamp_us);
    assert_eq!(parsed.flags, d.flags);
    assert_eq!(parsed.chunk_index, d.chunk_index);
    assert_eq!(parsed.total_chunks, d.total_chunks);
    assert_eq!(parsed.payload, d.payload);
}

#[test]
fn parse_rejects_short_buffer() {
    let bytes = encode_udp_datagram(&sample_datagram());
    assert!(parse_udp_datagram(&bytes[..UDP_HEADER_SIZE - 1]).is_none());
    assert!(parse_udp_datagram(&[]).is_none());
}

#[test]
fn parse_rejects_bad_magic() {
    let mut bytes = encode_udp_datagram(&sample_datagram());
    bytes[0] = 0x4e;
    assert!(parse_udp_datagram(&bytes).is_none());
    let mut bytes2 = encode_udp_datagram(&sample_datagram());
    bytes2[1] = 0x45;
    assert!(parse_udp_datagram(&bytes2).is_none());
}

#[test]
fn parse_rejects_bad_version() {
    let mut bytes = encode_udp_datagram(&sample_datagram());
    bytes[2] = 2;
    assert!(parse_udp_datagram(&bytes).is_none());
}

#[test]
fn parse_rejects_zero_total_chunks() {
    let mut bytes = encode_udp_datagram(&sample_datagram());
    bytes[34] = 0;
    bytes[35] = 0;
    assert!(parse_udp_datagram(&bytes).is_none());
}

#[test]
fn parse_rejects_chunk_index_out_of_range() {
    let mut bytes = encode_udp_datagram(&sample_datagram());
    bytes[32] = 0;
    bytes[33] = 5;
    assert!(parse_udp_datagram(&bytes).is_none());
}

#[test]
fn parse_rejects_length_mismatch() {
    let mut bytes = encode_udp_datagram(&sample_datagram());
    bytes.push(0);
    assert!(parse_udp_datagram(&bytes).is_none());
    let mut bytes2 = encode_udp_datagram(&sample_datagram());
    bytes2.pop();
    assert!(parse_udp_datagram(&bytes2).is_none());
}

#[test]
fn stream_id_hex_round_trip() {
    let id: Vec<u8> = (0..16).collect();
    let hex = stream_id_to_hex(&id);
    assert_eq!(hex, "000102030405060708090a0b0c0d0e0f");
    let back = parse_stream_id_hex(&hex).expect("hex must parse");
    assert_eq!(back, id);
}

#[test]
fn stream_id_parse_strips_dashes_and_case() {
    let id = parse_stream_id_hex("00010203-0405-0607-0809-0A0B0C0D0E0F").expect("uuid form");
    assert_eq!(id, (0..16).collect::<Vec<u8>>());
    let id2 = parse_stream_id_hex("  DEADBEEFDEADBEEFDEADBEEFDEADBEEF  ").expect("upper case");
    assert_eq!(stream_id_to_hex(&id2), "deadbeefdeadbeefdeadbeefdeadbeef");
}

#[test]
fn stream_id_parse_rejects_bad_input() {
    assert!(parse_stream_id_hex("").is_err());
    assert!(parse_stream_id_hex("0001").is_err());
    assert!(parse_stream_id_hex("000102030405060708090a0b0c0d0e0").is_err());
    assert!(parse_stream_id_hex("zz0102030405060708090a0b0c0d0e0f").is_err());
    assert!(parse_stream_id_hex("000102030405 60708090a0b0c0d0e0f").is_err());
}
