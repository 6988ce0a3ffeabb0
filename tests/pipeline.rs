use mqtt_features::layers::{Encapsulation, FrameLayers, NetworkFields, TransportFields};
use mqtt_features::message::AppMessage;
use mqtt_features::mqtt::decode_messages;
use mqtt_features::pipeline::{
    timestamp_micros, EmissionPolicy, Extractor, ExtractorConfig, FrameError, SlicedFrame,
};
use mqtt_features::record::FeatureRecord;

fn config(policy: EmissionPolicy) -> ExtractorConfig {
    ExtractorConfig { policy, encapsulation: Encapsulation::Ip, prefix_len: 0, excluded_port: None }
}

fn net() -> NetworkFields {
    NetworkFields { total_len: 60, dont_fragment: true, more_fragments: false, ttl: 64 }
}

fn tcp(src: u16, dst: u16) -> TransportFields {
    TransportFields {
        header_len: 20,
        data_offset: 5,
        ack: true,
        cwr: false,
        ece: false,
        fin: false,
        ns: false,
        psh: true,
        rst: false,
        syn: false,
        urg: false,
        src_port: src,
        dst_port: dst,
    }
}

fn publish_a_b() -> Vec<u8> {
    // PUBLISH, QoS 1, topic "a/b", packet id 1, payload "hi"
    vec![0x32, 0x09, 0x00, 0x03, b'a', b'/', b'b', 0x00, 0x01, b'h', b'i']
}

fn ipv4_tcp_frame(payload: &[u8]) -> Vec<u8> {
    let total = (40 + payload.len()) as u16;
    let mut f = vec![
        0x45, 0x00, (total >> 8) as u8, total as u8, 0x00, 0x00, 0x40, 0x00, 64, 6, 0x00, 0x00,
        127, 0, 0, 1, 127, 0, 0, 1,
    ];
    f.extend_from_slice(&[
        0x07, 0x5b, 0xc3, 0x50, 0, 0, 0, 1, 0, 0, 0, 1, 0x50, 0x18, 0xff, 0xff, 0, 0, 0, 0,
    ]);
    f.extend_from_slice(payload);
    f
}

#[test]
fn publish_bytes_decode_to_topic_and_qos() {
    let msgs = decode_messages(&publish_a_b());
    assert_eq!(msgs.len(), 1);
    match &msgs[0] {
        AppMessage::Publish { len, topic_len, qos } => {
            assert_eq!((*len, *topic_len, *qos), (9, 3, 1));
        }
        _ => panic!("expected a publish message"),
    }
}

#[test]
fn publish_record_fields() {
    let mut ex = Extractor::new(config(EmissionPolicy::Strict));
    let layers = FrameLayers {
        packet_len: 51,
        network: Some(net()),
        transport: Some(tcp(1883, 50000)),
        payload: publish_a_b(),
    };
    let recs = ex.process_layers(&layers, 1, 0).unwrap();
    assert_eq!(recs.len(), 1);
    assert_eq!(recs[0].mqtt_topic_len, 3);
    assert_eq!(recs[0].mqtt_qos_lvl, 1);
    assert_eq!(recs[0].mqtt_msg_type, 3);
    assert_eq!(recs[0].mqtt_len, 9);
    assert_eq!(recs[0].packet_len, 51);
    assert_eq!(recs[0].ip_ttl, 64);
    assert_eq!(recs[0].tcp_src_port, 1883);
}

#[test]
fn ping_bytes_give_empty_application_fields() {
    let mut ex = Extractor::new(config(EmissionPolicy::Strict));
    for (byte, kind) in [(0xc0u8, 12u8), (0xd0, 13), (0xe0, 14)] {
        let layers = FrameLayers {
            packet_len: 42,
            network: Some(net()),
            transport: Some(tcp(1883, 50000)),
            payload: vec![byte, 0x00],
        };
        let recs = ex.process_layers(&layers, 1, 0).unwrap();
        assert_eq!(recs.len(), 1);
        assert_eq!(
            (recs[0].mqtt_len, recs[0].mqtt_topic_len, recs[0].mqtt_qos_lvl, recs[0].mqtt_msg_type),
            (0, 0, 0, kind)
        );
    }
}

#[test]
fn two_messages_give_two_records_in_order() {
    let mut payload = publish_a_b();
    payload.extend_from_slice(&[0xc0, 0x00]);
    let layers = FrameLayers {
        packet_len: 53,
        network: Some(net()),
        transport: Some(tcp(1883, 50000)),
        payload,
    };
    let mut ex = Extractor::new(config(EmissionPolicy::Exhaustive));
    let recs = ex.process_layers(&layers, 5, 10).unwrap();
    assert_eq!(recs.len(), 2);
    assert_eq!(recs[0].mqtt_msg_type, 3);
    assert_eq!(recs[1].mqtt_msg_type, 12);
    let mut a = recs[0];
    let mut b = recs[1];
    a.mqtt_len = 0;
    a.mqtt_topic_len = 0;
    a.mqtt_msg_type = 0;
    a.mqtt_qos_lvl = 0;
    b.mqtt_len = 0;
    b.mqtt_topic_len = 0;
    b.mqtt_msg_type = 0;
    b.mqtt_qos_lvl = 0;
    assert_eq!(a, b);
}

#[test]
fn strict_mode_takes_first_message_only() {
    let mut payload = publish_a_b();
    payload.extend_from_slice(&[0xc0, 0x00]);
    let layers = FrameLayers {
        packet_len: 53,
        network: Some(net()),
        transport: Some(tcp(1883, 50000)),
        payload,
    };
    let mut ex = Extractor::new(config(EmissionPolicy::Strict));
    let recs = ex.process_layers(&layers, 5, 10).unwrap();
    assert_eq!(recs.len(), 1);
    assert_eq!(recs[0].mqtt_msg_type, 3);
}

#[test]
fn empty_subscription_gives_no_record_and_run_continues() {
    let layers = FrameLayers {
        packet_len: 42,
        network: Some(net()),
        transport: Some(tcp(1883, 50000)),
        payload: vec![],
    };
    for policy in [EmissionPolicy::Strict, EmissionPolicy::Exhaustive] {
        let mut ex = Extractor::new(config(policy));
        let empty_sub = vec![AppMessage::Subscribe { len: 2, filters: vec![] }];
        assert_eq!(ex.process_decoded(&layers, 1, 0, &empty_sub).unwrap().len(), 0);
        let empty_unsub = vec![AppMessage::Unsubscribe { topic_lens: vec![] }];
        assert_eq!(ex.process_decoded(&layers, 2, 0, &empty_unsub).unwrap().len(), 0);
        let ping = vec![AppMessage::PingReq];
        assert_eq!(ex.process_decoded(&layers, 3, 0, &ping).unwrap().len(), 1);
    }
}

#[test]
fn non_ipv4_frames_give_nothing_and_keep_window() {
    let frames: Vec<SlicedFrame> = (0..5)
        .map(|k| SlicedFrame {
            layers: FrameLayers {
                packet_len: 60,
                network: None,
                transport: Some(tcp(1883, 50000)),
                payload: vec![0xc0, 0x00],
            },
            ts_sec: k,
            ts_usec: 0,
        })
        .collect();
    for policy in [EmissionPolicy::Strict, EmissionPolicy::Exhaustive] {
        let mut ex = Extractor::new(config(policy));
        assert_eq!(ex.process_all(&frames).unwrap().len(), 0);
        assert_eq!(ex.average(), 0);
    }
}

#[test]
fn exhaustive_mode_fills_missing_layers_with_zero() {
    let mut ex = Extractor::new(config(EmissionPolicy::Exhaustive));
    let no_tcp = FrameLayers { packet_len: 30, network: Some(net()), transport: None, payload: vec![] };
    let recs = ex.process_layers(&no_tcp, 1, 0).unwrap();
    let mut expected = FeatureRecord::new(30);
    expected.ip_len = 60;
    expected.ip_df = true;
    expected.ip_ttl = 64;
    assert_eq!(recs, vec![expected]);

    let undecodable = FrameLayers {
        packet_len: 41,
        network: Some(net()),
        transport: Some(tcp(1883, 50000)),
        payload: vec![0xff],
    };
    let recs = ex.process_layers(&undecodable, 1, 500).unwrap();
    assert_eq!(recs.len(), 1);
    assert_eq!(recs[0].tcp_tdelta, 500);
    assert_eq!(recs[0].tcp_l20_avg, 250);
    assert_eq!(recs[0].mqtt_msg_type, 0);
}

#[test]
fn excluded_port_is_treated_as_no_transport() {
    let mut cfg = config(EmissionPolicy::Strict);
    cfg.excluded_port = Some(8000);
    let mut ex = Extractor::new(cfg);
    let layers = FrameLayers {
        packet_len: 42,
        network: Some(net()),
        transport: Some(tcp(8000, 50000)),
        payload: vec![0xc0, 0x00],
    };
    assert_eq!(ex.process_layers(&layers, 1, 0).unwrap().len(), 0);
    // the frame still advanced the window
    let layers2 = FrameLayers { transport: Some(tcp(1883, 50000)), ..layers };
    let recs = ex.process_layers(&layers2, 1, 40).unwrap();
    assert_eq!(recs[0].tcp_tdelta, 40);
}

#[test]
fn raw_frame_is_sliced_and_decoded() {
    let frame = ipv4_tcp_frame(&publish_a_b());
    let mut ex = Extractor::new(config(EmissionPolicy::Strict));
    let recs = ex.process_frame(&frame, 10, 0).unwrap();
    assert_eq!(recs.len(), 1);
    let r = recs[0];
    assert_eq!(r.packet_len, frame.len());
    assert_eq!(r.ip_len, 51);
    assert!(r.ip_df);
    assert!(!r.ip_mf);
    assert_eq!(r.ip_ttl, 64);
    // the segment: a 20-byte header and the 11-byte message
    assert_eq!(r.tcp_len, 31);
    assert_eq!(r.tcp_pdu_size, 5);
    assert!(r.tcp_ack && r.tcp_push && !r.tcp_syn && !r.tcp_fin);
    assert_eq!((r.tcp_src_port, r.tcp_dst_port), (1883, 50000));
    assert_eq!((r.mqtt_msg_type, r.mqtt_topic_len, r.mqtt_qos_lvl), (3, 3, 1));
}

#[test]
fn raw_frame_with_capture_prefix() {
    let mut frame = vec![0u8; 16];
    frame.extend_from_slice(&ipv4_tcp_frame(&[0xe0, 0x00]));
    let mut cfg = config(EmissionPolicy::Strict);
    cfg.prefix_len = 16;
    let mut ex = Extractor::new(cfg);
    let recs = ex.process_frame(&frame, 10, 0).unwrap();
    assert_eq!(recs.len(), 1);
    assert_eq!(recs[0].mqtt_msg_type, 14);
    assert_eq!(recs[0].packet_len, frame.len());
}

#[test]
fn short_and_malformed_frames_are_errors() {
    let mut cfg = config(EmissionPolicy::Strict);
    cfg.prefix_len = 16;
    let mut ex = Extractor::new(cfg);
    assert_eq!(ex.process_frame(&[0u8; 4], 1, 0), Err(FrameError::ShorterThanPrefix));
    let mut bad = vec![0u8; 16];
    bad.extend_from_slice(&[0x45, 0x00, 0x00]);
    assert_eq!(ex.process_frame(&bad, 1, 0), Err(FrameError::Malformed));
    assert_eq!(ex.average(), 0);
}

#[test]
fn timestamp_conversion_and_range() {
    assert_eq!(timestamp_micros(2, 5), Some(2_000_005));
    assert_eq!(timestamp_micros(i64::MAX, 0), None);
    let mut ex = Extractor::new(config(EmissionPolicy::Exhaustive));
    let layers = FrameLayers { packet_len: 30, network: Some(net()), transport: None, payload: vec![] };
    assert_eq!(ex.process_layers(&layers, i64::MAX, 0), Err(FrameError::TimestampOutOfRange));
}

#[test]
fn same_input_gives_same_records() {
    let frames = [ipv4_tcp_frame(&publish_a_b()), ipv4_tcp_frame(&[0xc0, 0x00, 0xd0, 0x00])];
    let run = || {
        let mut ex = Extractor::new(config(EmissionPolicy::Exhaustive));
        let mut out = Vec::new();
        for (k, f) in frames.iter().enumerate() {
            out.extend(ex.process_frame(f, 100, k as i64 * 250).unwrap());
        }
        out
    };
    let first = run();
    assert_eq!(first.len(), 3);
    assert_eq!(first, run());
}

#[test]
fn rejected_frame_leaves_state_and_later_frames_still_count() {
    let mut cfg = config(EmissionPolicy::Strict);
    cfg.prefix_len = 16;
    let mut ex = Extractor::new(cfg);
    let mut good = vec![0u8; 16];
    good.extend_from_slice(&ipv4_tcp_frame(&[0xc0, 0x00]));
    assert_eq!(ex.process_frame(&good, 1, 0).unwrap().len(), 1);
    assert_eq!(ex.process_frame(&[0u8; 3], 1, 100), Err(FrameError::ShorterThanPrefix));
    let recs = ex.process_frame(&good, 1, 300).unwrap();
    assert_eq!(recs.len(), 1);
    // the gap runs from the last accepted frame, not the rejected one
    assert_eq!(recs[0].tcp_tdelta, 300);
}

#[test]
fn process_all_concatenates_in_order_and_stops_at_bad_time() {
    let frame = |payload: Vec<u8>, usec: i64| SlicedFrame {
        layers: FrameLayers {
            packet_len: 50,
            network: Some(net()),
            transport: Some(tcp(1883, 50000)),
            payload,
        },
        ts_sec: 0,
        ts_usec: usec,
    };
    let frames = vec![frame(vec![0xc0, 0x00, 0xd0, 0x00], 0), frame(vec![0xe0, 0x00], 40)];
    let mut ex = Extractor::new(config(EmissionPolicy::Exhaustive));
    let recs = ex.process_all(&frames).unwrap();
    let kinds: Vec<u8> = recs.iter().map(|r| r.mqtt_msg_type).collect();
    assert_eq!(kinds, vec![12, 13, 14]);
    assert_eq!(recs[2].tcp_tdelta, 40);
    assert_eq!(recs[2].tcp_l20_avg, 20);

    let mut bad = frames.clone();
    bad.insert(1, SlicedFrame { ts_sec: i64::MAX, ..frame(vec![], 0) });
    let mut ex = Extractor::new(config(EmissionPolicy::Exhaustive));
    assert_eq!(ex.process_all(&bad), Err(FrameError::TimestampOutOfRange));
}

#[test]
fn ethernet_frame_is_sliced_and_decoded() {
    let mut frame = vec![0u8; 12];
    frame.extend_from_slice(&[0x08, 0x00]);
    frame.extend_from_slice(&ipv4_tcp_frame(&publish_a_b()));
    let mut cfg = config(EmissionPolicy::Exhaustive);
    cfg.encapsulation = Encapsulation::Ethernet;
    let mut ex = Extractor::new(cfg);
    let recs = ex.process_frame(&frame, 3, 0).unwrap();
    assert_eq!(recs.len(), 1);
    let r = recs[0];
    assert_eq!((r.ip_len, r.ip_ttl, r.ip_df), (51, 64, true));
    assert_eq!((r.tcp_len, r.tcp_pdu_size, r.tcp_src_port, r.tcp_dst_port), (31, 5, 1883, 50000));
    assert!(r.tcp_ack && r.tcp_push && !r.tcp_reset && !r.tcp_urg);
    assert_eq!((r.mqtt_msg_type, r.mqtt_len, r.mqtt_topic_len, r.mqtt_qos_lvl), (3, 9, 3, 1));
}
