//! The feature record: one row per packet and application message.
use vstd::prelude::*;
use crate::layers::{NetworkFields, TransportFields};
use crate::message::MessageFeatures;

verus! {

/// The features of one packet and one of its application messages. A layer that is
/// absent leaves its fields at zero and `false`.
#[derive(Clone, Copy, Debug, PartialEq, Eq, Structural)]
pub struct FeatureRecord {
    pub packet_len: usize,
    pub ip_len: u16,
    pub ip_df: bool,
    pub ip_mf: bool,
    pub ip_ttl: u8,
    pub tcp_len: usize,
    pub tcp_pdu_size: u8,
    pub tcp_ack: bool,
    pub tcp_cwr: bool,
    pub tcp_ece: bool,
    pub tcp_fin: bool,
    pub tcp_ns: bool,
    pub tcp_push: bool,
    pub tcp_reset: bool,
    pub tcp_syn: bool,
    pub tcp_urg: bool,
    pub tcp_src_port: u16,
    pub tcp_dst_port: u16,
    pub tcp_tdelta: i64,
    pub tcp_l20_avg: i64,
    pub mqtt_len: usize,
    pub mqtt_topic_len: usize,
    pub mqtt_msg_type: u8,
    pub mqtt_qos_lvl: u8,
}

/// The record of a packet of `packet_len` bytes with every other field at zero.
pub open spec fn zero_record(packet_len: usize) -> FeatureRecord {
    FeatureRecord {
        packet_len,
        ip_len: 0,
        ip_df: false,
        ip_mf: false,
        ip_ttl: 0,
        tcp_len: 0,
        tcp_pdu_size: 0,
        tcp_ack: false,
        tcp_cwr: false,
        tcp_ece: false,
        tcp_fin: false,
        tcp_ns: false,
        tcp_push: false,
        tcp_reset: false,
        tcp_syn: false,
        tcp_urg: false,
        tcp_src_port: 0,
        tcp_dst_port: 0,
        tcp_tdelta: 0,
        tcp_l20_avg: 0,
        mqtt_len: 0,
        mqtt_topic_len: 0,
        mqtt_msg_type: 0,
        mqtt_qos_lvl: 0,
    }
}

/// The record with the network fields of `n`.
pub open spec fn with_network(r: FeatureRecord, n: NetworkFields) -> FeatureRecord {
    FeatureRecord {
        ip_len: n.total_len,
        ip_df: n.dont_fragment,
        ip_mf: n.more_fragments,
        ip_ttl: n.ttl,
        ..r
    }
}

/// The length of a TCP segment: its header and the payload after it (at most `usize::MAX`).
pub open spec fn segment_len(header_len: usize, payload_len: nat) -> usize {
    if header_len + payload_len > usize::MAX {
        usize::MAX
    } else {
        (header_len + payload_len) as usize
    }
}

/// The record with the transport fields of `t`, the length `seg_len` of its segment, and
/// the timing values of its packet.
pub open spec fn with_transport(
    r: FeatureRecord,
    t: TransportFields,
    seg_len: usize,
    delta: i64,
    avg: i64,
) -> FeatureRecord {
    FeatureRecord {
        tcp_len: seg_len,
        tcp_pdu_size: t.data_offset,
        tcp_ack: t.ack,
        tcp_cwr: t.cwr,
        tcp_ece: t.ece,
        tcp_fin: t.fin,
        tcp_ns: t.ns,
        tcp_push: t.psh,
        tcp_reset: t.rst,
        tcp_syn: t.syn,
        tcp_urg: t.urg,
        tcp_src_port: t.src_port,
        tcp_dst_port: t.dst_port,
        tcp_tdelta: delta,
        tcp_l20_avg: avg,
        ..r
    }
}

/// The record with the application fields of `f`.
pub open spec fn with_message(r: FeatureRecord, f: MessageFeatures) -> FeatureRecord {
    FeatureRecord {
        mqtt_len: f.len,
        mqtt_topic_len: f.topic_len,
        mqtt_msg_type: f.kind,
        mqtt_qos_lvl: f.qos,
        ..r
    }
}

/// Whether two records agree on every field but the application ones.
pub open spec fn same_headers(a: FeatureRecord, b: FeatureRecord) -> bool {
    with_message(a, MessageFeatures { len: 0, topic_len: 0, kind: 0, qos: 0 }) == with_message(
        b,
        MessageFeatures { len: 0, topic_len: 0, kind: 0, qos: 0 },
    )
}

impl FeatureRecord {
    /// The record of a packet of `packet_len` bytes with every other field at zero.
    pub fn new(packet_len: usize) -> (r: FeatureRecord)
        ensures
            r == zero_record(packet_len),
    {
        FeatureRecord {
            packet_len,
            ip_len: 0,
            ip_df: false,
            ip_mf: false,
            ip_ttl: 0,
            tcp_len: 0,
            tcp_pdu_size: 0,
            tcp_ack: false,
            tcp_cwr: false,
            tcp_ece: false,
            tcp_fin: false,
            tcp_ns: false,
            tcp_push: false,
            tcp_reset: false,
            tcp_syn: false,
            tcp_urg: false,
            tcp_src_port: 0,
            tcp_dst_port: 0,
            tcp_tdelta: 0,
            tcp_l20_avg: 0,
            mqtt_len: 0,
            mqtt_topic_len: 0,
            mqtt_msg_type: 0,
            mqtt_qos_lvl: 0,
        }
    }

    /// Sets the network fields.
    pub fn set_network(&mut self, n: &NetworkFields)
        ensures
            *final(self) == with_network(*old(self), *n),
    {
        self.ip_len = n.total_len;
        self.ip_df = n.dont_fragment;
        self.ip_mf = n.more_fragments;
        self.ip_ttl = n.ttl;
    }

    /// Sets the transport fields, the segment length and the timing values.
    pub fn set_transport(&mut self, t: &TransportFields, seg_len: usize, delta: i64, avg: i64)
        ensures
            *final(self) == with_transport(*old(self), *t, seg_len, delta, avg),
    {
        self.tcp_len = seg_len;
        self.tcp_pdu_size = t.data_offset;
        self.tcp_ack = t.ack;
        self.tcp_cwr = t.cwr;
        self.tcp_ece = t.ece;
        self.tcp_fin = t.fin;
        self.tcp_ns = t.ns;
        self.tcp_push = t.psh;
        self.tcp_reset = t.rst;
        self.tcp_syn = t.syn;
        self.tcp_urg = t.urg;
        self.tcp_src_port = t.src_port;
        self.tcp_dst_port = t.dst_port;
        self.tcp_tdelta = delta;
        self.tcp_l20_avg = avg;
    }

    /// Sets the application fields.
    pub fn set_message(&mut self, f: &MessageFeatures)
        ensures
            *final(self) == with_message(*old(self), *f),
    {
        self.mqtt_len = f.len;
        self.mqtt_topic_len = f.topic_len;
        self.mqtt_msg_type = f.kind;
        self.mqtt_qos_lvl = f.qos;
    }
}

} // verus!
