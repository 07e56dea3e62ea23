use base64::Engine;
use lan_remote_core::codec::{encode_udp_datagram, Datagram};
use lan_remote_core::feedback::{FeedbackError, prepare_feedback, UdpLanFeedbackMessage};
use lan_remote_core::receiver::{
    normalize_options, DatagramOutcome, Receiver, RemoteEndpoint, StartUdpLanReceiverOptions,
};

fn default_options() -> StartUdpLanReceiverOptions {
    StartUdpLanReceiverOptions {
        listenHost: None,
        listenPort: None,
        streamId: None,
        maxFrameAgeMs: None,
        maxPendingFrames: None,
        statsIntervalMs: None,
    }
}

fn receiver() -> Receiver {
    Receiver::new(normalize_options(default_options()).expect("defaults normalize"))
}

fn stream_one() -> Vec<u8> {
    let mut id = vec![0u8; 16];
    id[15] = 1;
    id
}

fn chunk(seq: u32, chunk_index: u16, total_chunks: u16, payload: &[u8]) -> Vec<u8> {
    encode_udp_datagram(&Datagram {
        stream_id: stream_one(),
        seq,
        timestamp_us: 1_000_000,
        flags: 1,
        chunk_index,
        total_chunks,
        payload: payload.to_vec(),
    })
}

fn feed(r: &mut Receiver, bytes: &[u8], now_ms: u64) -> DatagramOutcome {
    r.handle_datagram(bytes, "192.168.0.9".to_string(), 5004, now_ms)
}

#[test]
fn clean_two_chunk_frame() {
    let mut r = receiver();
    let first = feed(&mut r, &chunk(7, 0, 2, &[0xAA, 0xBB]), 10);
    assert!(matches!(first, DatagramOutcome::Stored));
    let second = feed(&mut r, &chunk(7, 1, 2, &[0xCC]), 11);
    match second {
        DatagramOutcome::Completed(ev) => {
            assert_eq!(ev.seq, 7);
            assert_eq!(ev.payload_bytes, 3);
            assert_eq!(ev.payload_base64, "qrvM");
            assert_eq!(ev.payload, vec![0xAA, 0xBB, 0xCC]);
            assert_eq!(ev.total_chunks, 2);
            assert_eq!(ev.received_chunks, 2);
            assert_eq!(ev.stream_id_hex, "00000000000000000000000000000001");
        },
        _ => panic!("second chunk must complete the frame"),
    }
    assert_eq!(r.stats.frames_completed, 1);
    assert_eq!(r.stats.keyframes_completed, 1);
    assert_eq!(r.stats.packets_accepted, 2);
    assert_eq!(r.stats.bytes_reassembled, 3);
    assert_eq!(r.last_delivered_seq, Some(7));
    assert_eq!(r.stats.remote_address.as_deref(), Some("192.168.0.9"));
    assert_eq!(r.stats.remote_port, Some(5004));
}

#[test]
fn duplicate_chunk_counted_once() {
    let mut r = receiver();
    assert!(matches!(feed(&mut r, &chunk(7, 0, 2, &[0xAA, 0xBB]), 10), DatagramOutcome::Stored));
    assert!(matches!(feed(&mut r, &chunk(7, 0, 2, &[0xAA, 0xBB]), 11), DatagramOutcome::Duplicate));
    assert!(matches!(feed(&mut r, &chunk(7, 1, 2, &[0xCC]), 12), DatagramOutcome::Completed(_)));
    assert_eq!(r.stats.packets_duplicate, 1);
    assert_eq!(r.stats.frames_completed, 1);
    assert_eq!(r.stats.packets_received, 3);
}

#[test]
fn timed_out_frame_is_dropped() {
    let mut r = receiver();
    // default maxFrameAgeMs is 40
    assert!(matches!(feed(&mut r, &chunk(3, 0, 2, &[1, 2]), 100), DatagramOutcome::Stored));
    r.evict_timed_out(100 + 40 + 20);
    assert_eq!(r.stats.frames_dropped_timeout, 1);
    assert_eq!(r.stats.missing_chunks, 1);
    assert_eq!(r.stats.frames_completed, 0);
    assert_eq!(r.pending.len(), 0);
}

#[test]
fn fresh_frame_survives_timed_eviction() {
    let mut r = receiver();
    assert!(matches!(feed(&mut r, &chunk(3, 0, 2, &[1, 2]), 100), DatagramOutcome::Stored));
    r.evict_timed_out(110);
    assert_eq!(r.stats.frames_dropped_timeout, 0);
    assert_eq!(r.pending.len(), 1);
}

#[test]
fn gap_evicts_partial_frames() {
    let mut r = receiver();
    assert!(matches!(feed(&mut r, &chunk(10, 0, 1, &[1]), 5), DatagramOutcome::Completed(_)));
    assert!(matches!(feed(&mut r, &chunk(11, 0, 2, &[2, 3]), 6), DatagramOutcome::Stored));
    let third = feed(&mut r, &chunk(12, 0, 1, &[4]), 7);
    match third {
        DatagramOutcome::Completed(ev) => assert_eq!(ev.seq, 12),
        _ => panic!("seq 12 must complete"),
    }
    assert_eq!(r.stats.frames_completed, 2);
    assert_eq!(r.stats.frames_dropped_gap, 1);
    assert!(r.stats.seq_gap_frames >= 1);
    assert_eq!(r.pending.len(), 0);
    assert_eq!(r.last_delivered_seq, Some(12));
}

#[test]
fn late_datagram_is_dropped() {
    let mut r = receiver();
    assert!(matches!(feed(&mut r, &chunk(5, 0, 1, &[1]), 5), DatagramOutcome::Completed(_)));
    assert!(matches!(feed(&mut r, &chunk(5, 0, 1, &[1]), 6), DatagramOutcome::Late));
    assert!(matches!(feed(&mut r, &chunk(4, 0, 1, &[1]), 7), DatagramOutcome::Late));
    assert_eq!(r.stats.frames_dropped_late, 2);
    assert_eq!(r.stats.frames_completed, 1);
}

#[test]
fn conflicting_total_chunks_discards_frame() {
    let mut r = receiver();
    assert!(matches!(feed(&mut r, &chunk(9, 0, 3, &[1]), 5), DatagramOutcome::Stored));
    assert!(matches!(feed(&mut r, &chunk(9, 1, 2, &[2]), 6), DatagramOutcome::BadTotalChunks));
    assert_eq!(r.stats.packets_invalid, 1);
    assert_eq!(r.pending.len(), 0);
}

#[test]
fn stream_mismatch_is_counted() {
    let mut r = receiver();
    assert!(matches!(feed(&mut r, &chunk(1, 0, 1, &[1]), 5), DatagramOutcome::Completed(_)));
    let other = encode_udp_datagram(&Datagram {
        stream_id: vec![9u8; 16],
        seq: 2,
        timestamp_us: 1,
        flags: 0,
        chunk_index: 0,
        total_chunks: 1,
        payload: vec![1],
    });
    assert!(matches!(feed(&mut r, &other, 6), DatagramOutcome::StreamMismatch));
    assert_eq!(r.stats.packets_stream_mismatch, 1);
}

#[test]
fn invalid_datagram_is_counted() {
    let mut r = receiver();
    assert!(matches!(feed(&mut r, &[1, 2, 3], 5), DatagramOutcome::Invalid));
    assert_eq!(r.stats.packets_invalid, 1);
    assert_eq!(r.stats.packets_received, 1);
}

#[test]
fn every_datagram_lands_in_one_counter() {
    let mut r = receiver();
    let _ = feed(&mut r, &[0u8; 10], 1);
    let _ = feed(&mut r, &chunk(4, 0, 2, &[1, 2]), 2);
    let _ = feed(&mut r, &chunk(4, 0, 2, &[1, 2]), 3);
    let _ = feed(&mut r, &chunk(4, 1, 2, &[3]), 4);
    let _ = feed(&mut r, &chunk(4, 1, 2, &[3]), 5);
    let s = &r.stats;
    assert_eq!(s.packets_received, 5);
    assert_eq!(
        s.packets_received,
        s.packets_invalid + s.packets_stream_mismatch + s.frames_dropped_late
            + s.packets_duplicate + s.packets_accepted
    );
}

#[test]
fn overflow_eviction_respects_cap() {
    let opts = StartUdpLanReceiverOptions {
        maxPendingFrames: Some(2),
        ..default_options()
    };
    let mut r = Receiver::new(normalize_options(opts).expect("normalizes"));
    for seq in 1..=4u32 {
        assert!(matches!(feed(&mut r, &chunk(seq, 0, 2, &[1]), 5), DatagramOutcome::Stored));
    }
    assert_eq!(r.pending.len(), 4);
    r.evict_overflow();
    assert_eq!(r.pending.len(), 2);
    assert_eq!(r.stats.frames_dropped_queue, 2);
    // the lowest sequences were evicted
    assert_eq!(r.pending[0].seq, 3);
    assert_eq!(r.pending[1].seq, 4);
}

#[test]
fn frame_payload_base64_decodes_to_payload() {
    let mut r = receiver();
    let payload: Vec<u8> = (0..200u16).map(|v| (v % 251) as u8).collect();
    assert!(matches!(feed(&mut r, &chunk(1, 0, 2, &payload[..90]), 5), DatagramOutcome::Stored));
    match feed(&mut r, &chunk(1, 1, 2, &payload[90..]), 6) {
        DatagramOutcome::Completed(ev) => {
            let decoded = base64::engine::general_purpose::STANDARD
                .decode(&ev.payload_base64)
                .expect("emitted base64 must decode");
            assert_eq!(decoded, payload);
            assert_eq!(ev.payload_bytes, decoded.len());
            assert_eq!(ev.payload, decoded);
        },
        _ => panic!("frame must complete"),
    }
}

#[test]
fn configured_stream_id_gates_datagrams() {
    let opts = StartUdpLanReceiverOptions {
        streamId: Some("00000000000000000000000000000002".to_string()),
        ..default_options()
    };
    let mut r = Receiver::new(normalize_options(opts).expect("normalizes"));
    assert!(matches!(feed(&mut r, &chunk(1, 0, 1, &[1]), 5), DatagramOutcome::StreamMismatch));
    assert_eq!(r.stats.packets_stream_mismatch, 1);
}

#[test]
fn options_are_clamped() {
    let opts = StartUdpLanReceiverOptions {
        listenHost: Some("  10.0.0.1  ".to_string()),
        listenPort: Some(0),
        streamId: Some("  ".to_string()),
        maxFrameAgeMs: Some(1),
        maxPendingFrames: Some(100_000),
        statsIntervalMs: Some(1),
    };
    let o = normalize_options(opts).expect("normalizes");
    assert_eq!(o.listen_host, "10.0.0.1");
    assert_eq!(o.listen_port, 5004);
    assert!(o.expected_stream_id.is_none());
    assert_eq!(o.max_frame_age_ms, 5);
    assert_eq!(o.max_pending_frames, 4096);
    assert_eq!(o.stats_interval_ms, 250);
}

#[test]
fn options_reject_bad_stream_id() {
    let opts = StartUdpLanReceiverOptions {
        streamId: Some("not-hex".to_string()),
        ..default_options()
    };
    assert!(normalize_options(opts).is_err());
}

fn feedback_message() -> UdpLanFeedbackMessage {
    UdpLanFeedbackMessage {
        message_type: "feedback".to_string(),
        version: None,
        token: "tok".to_string(),
        sessionId: None,
        streamId: None,
        freezeMs: Some(120_000),
        requestedBitrateKbps: Some(7),
        reason: Some("  lag  ".to_string()),
    }
}

#[test]
fn feedback_without_remote_fails() {
    let r = prepare_feedback(feedback_message(), &None, &None, 99);
    match r {
        Err(FeedbackError::NoRemote) => {},
        _ => panic!("feedback before any datagram must fail on the missing remote"),
    }
    assert_eq!(
        FeedbackError::NoRemote.message(),
        "receiver UDP ainda nao possui remoto ativo."
    );
}

#[test]
fn feedback_requires_type_and_token() {
    let route = Some(RemoteEndpoint { address: "10.0.0.2".to_string(), port: 6000 });
    let mut m = feedback_message();
    m.message_type = "  ".to_string();
    assert!(matches!(
        prepare_feedback(m, &route, &None, 1),
        Err(FeedbackError::EmptyType)
    ));
    let mut m2 = feedback_message();
    m2.token = "".to_string();
    assert!(matches!(
        prepare_feedback(m2, &route, &None, 1),
        Err(FeedbackError::EmptyToken)
    ));
}

#[test]
fn feedback_clamps_and_falls_back_to_latched_stream() {
    let route = Some(RemoteEndpoint { address: "10.0.0.2".to_string(), port: 6000 });
    let latched = Some((0u8..16).collect::<Vec<u8>>());
    let Ok(p) = prepare_feedback(feedback_message(), &route, &latched, 777) else {
        panic!("valid feedback must prepare")
    };
    assert_eq!(p.message_type, "feedback");
    assert_eq!(p.version, 1);
    assert_eq!(p.freeze_ms, Some(60_000));
    assert_eq!(p.requested_bitrate_kbps, Some(100));
    assert_eq!(p.reason.as_deref(), Some("lag"));
    assert_eq!(p.stream_id.as_deref(), Some("000102030405060708090a0b0c0d0e0f"));
    assert_eq!(p.sent_at_us, 777);
    assert_eq!(p.remote_address, "10.0.0.2");
    assert_eq!(p.remote_port, 6000);
}
