//! Decoding application messages from a transport payload with `mqttbytes`.
use vstd::prelude::*;
use mqttbytes::v4::{
    ConnAck, Connect, Packet, PubAck, PubComp, PubRec, PubRel, Publish, SubAck, Subscribe,
    SubscribeFilter, SubscribeReasonCode, UnsubAck, Unsubscribe,
};
use mqttbytes::QoS;
use crate::message::{AppMessage, SubscribeCode, TopicFilter};

verus! {

#[verifier::external_type_specification]
pub struct ExPacket(Packet);

#[verifier::external_type_specification]
pub struct ExQoS(QoS);

#[verifier::external_type_specification]
pub struct ExPublish(Publish);

#[verifier::external_type_specification]
pub struct ExSubscribe(Subscribe);

#[verifier::external_type_specification]
pub struct ExSubscribeFilter(SubscribeFilter);

#[verifier::external_type_specification]
pub struct ExSubAck(SubAck);

#[verifier::external_type_specification]
pub struct ExSubscribeReasonCode(SubscribeReasonCode);

#[verifier::external_type_specification]
pub struct ExUnsubscribe(Unsubscribe);

#[verifier::external_type_specification]
#[verifier::external_body]
pub struct ExBytes(bytes::Bytes);

#[verifier::external_type_specification]
#[verifier::external_body]
pub struct ExConnect(Connect);

#[verifier::external_type_specification]
#[verifier::external_body]
pub struct ExConnAck(ConnAck);

#[verifier::external_type_specification]
#[verifier::external_body]
pub struct ExPubAck(PubAck);

#[verifier::external_type_specification]
#[verifier::external_body]
pub struct ExPubRec(PubRec);

#[verifier::external_type_specification]
#[verifier::external_body]
pub struct ExPubRel(PubRel);

#[verifier::external_type_specification]
#[verifier::external_body]
pub struct ExPubComp(PubComp);

#[verifier::external_type_specification]
#[verifier::external_body]
pub struct ExUnsubAck(UnsubAck);

#[verifier::external_type_specification]
#[verifier::external_body]
pub struct ExMqttError(mqttbytes::Error);

/// The largest remaining length that a message may declare.
pub const MAX_MESSAGE_SIZE: usize = 1073741824;

/// How many bytes the message at the head of `bytes` takes, as `mqttbytes::v4::read`
/// frames it with a size limit of `MAX_MESSAGE_SIZE`; `None` where that read fails.
pub uninterp spec fn mqtt_frame_len(bytes: Seq<u8>) -> Option<nat>;

/// The message that `mqttbytes::v4::read` decodes at the head of `bytes`, where it succeeds.
pub uninterp spec fn mqtt_packet(bytes: Seq<u8>) -> Packet;

/// What `mqttbytes::v4::Connect::len` gives on the connect message read at the head of `bytes`.
pub uninterp spec fn connect_len_at(bytes: Seq<u8>) -> usize;

/// What `mqttbytes::v4::Publish::len` gives on the publish message read at the head of `bytes`.
pub uninterp spec fn publish_len_at(bytes: Seq<u8>) -> usize;

/// What `mqttbytes::v4::Subscribe::len` gives on the subscription read at the head of `bytes`.
pub uninterp spec fn subscribe_len_at(bytes: Seq<u8>) -> usize;

/// The declared length that the message `p`, read at the head of `bytes`, carries: that of
/// a connect, publish or subscribe message, and `None` for the others.
pub open spec fn declared_len_at(p: Packet, bytes: Seq<u8>) -> Option<usize> {
    match p {
        Packet::Connect(_) => Some(connect_len_at(bytes)),
        Packet::Publish(_) => Some(publish_len_at(bytes)),
        Packet::Subscribe(_) => Some(subscribe_len_at(bytes)),
        _ => None,
    }
}

/// Relies on `mqttbytes::v4::read`, run on a copy of `buf[start..]`, and on the `len`
/// method of a connect, publish or subscribe message that it reads: it returns the next
/// message, how many bytes stay unread, and the message's declared length. The outcome
/// depends on the bytes alone; a message is taken only once its whole frame (at least a
/// type byte and a length byte) is there, and is then split off.
#[verifier::external_body]
fn read_packet(buf: &[u8], start: usize, max_size: usize) -> (r: (
    Result<Packet, mqttbytes::Error>,
    usize,
    Option<usize>,
))
    requires
        start <= buf@.len(),
        max_size == MAX_MESSAGE_SIZE,
    ensures
        r.0 is Ok <==> mqtt_frame_len(buf@.subrange(start as int, buf@.len() as int)) is Some,
        r.0 is Ok ==> ({
            let n = mqtt_frame_len(buf@.subrange(start as int, buf@.len() as int)).unwrap();
            r.1 + n == buf@.len() - start && n >= 2
        }),
        r.0 matches Ok(p) ==> p == mqtt_packet(buf@.subrange(start as int, buf@.len() as int)),
        r.0 matches Ok(Packet::Connect(_)) ==> r.2 == Some(
            connect_len_at(buf@.subrange(start as int, buf@.len() as int)),
        ),
        r.0 matches Ok(Packet::Publish(_)) ==> r.2 == Some(
            publish_len_at(buf@.subrange(start as int, buf@.len() as int)),
        ),
        r.0 matches Ok(Packet::Subscribe(_)) ==> r.2 == Some(
            subscribe_len_at(buf@.subrange(start as int, buf@.len() as int)),
        ),
        r.0 matches Ok(p) && !(p is Connect || p is Publish || p is Subscribe) ==> r.2 is None,
{
    let mut stream = bytes::BytesMut::from(&buf[start..]);
    let packet = mqttbytes::v4::read(&mut stream, max_size);
    let declared = match &packet {
        Ok(Packet::Connect(c)) => Some(c.len()),
        Ok(Packet::Publish(p)) => Some(p.len()),
        Ok(Packet::Subscribe(s)) => Some(s.len()),
        _ => None,
    };
    (packet, stream.len(), declared)
}

/// The messages that follow one another at the head of `bytes`, up to the first read
/// that fails, each with the bytes from which it was read.
pub open spec fn decoded_packets(bytes: Seq<u8>) -> Seq<(Packet, Seq<u8>)>
    decreases bytes.len(),
{
    match mqtt_frame_len(bytes) {
        Some(n) => if 1 <= n <= bytes.len() {
            seq![(mqtt_packet(bytes), bytes)] + decoded_packets(
                bytes.subrange(n as int, bytes.len() as int),
            )
        } else {
            Seq::empty()
        },
        None => Seq::empty(),
    }
}

/// The length of a string in bytes, as UTF-8.
pub open spec fn utf8_len(s: String) -> nat {
    vstd::utf8::encode_utf8(s@).len()
}

/// The numeric QoS level.
pub open spec fn qos_level(q: QoS) -> u8 {
    match q {
        QoS::AtMostOnce => 0,
        QoS::AtLeastOnce => 1,
        QoS::ExactlyOnce => 2,
    }
}

/// The numeric QoS level.
pub fn qos_value(q: &QoS) -> (r: u8)
    ensures
        r == qos_level(*q),
{
    match q {
        QoS::AtMostOnce => 0,
        QoS::AtLeastOnce => 1,
        QoS::ExactlyOnce => 2,
    }
}

/// The return codes of an acknowledgement, as the library records them.
pub open spec fn code_of(c: SubscribeReasonCode) -> SubscribeCode {
    match c {
        SubscribeReasonCode::Success(q) => SubscribeCode::Success(qos_level(q)),
        SubscribeReasonCode::Failure => SubscribeCode::Failure,
    }
}

/// Whether `m` records the decoded message `p` whose declared length is `declared`: its
/// kind and every field that the features read.
pub open spec fn records_packet(m: AppMessage, p: Packet, declared: Option<usize>) -> bool {
    match p {
        Packet::Connect(_) => m matches AppMessage::Connect { len } && declared == Some(len),
        Packet::ConnAck(_) => m is ConnAck,
        Packet::Publish(pb) => m matches AppMessage::Publish { len, topic_len, qos } && declared
            == Some(len) && topic_len
            == utf8_len(pb.topic) as usize && qos == qos_level(pb.qos),
        Packet::PubAck(_) => m is PubAck,
        Packet::PubRec(_) => m is PubRec,
        Packet::PubRel(_) => m is PubRel,
        Packet::PubComp(_) => m is PubComp,
        Packet::Subscribe(s) => m matches AppMessage::Subscribe { len, filters } && declared
            == Some(len) && filters@.len()
            == s.filters@.len() && forall|i: int|
            0 <= i < filters@.len() ==> #[trigger] filters@[i] == (TopicFilter {
                path_len: utf8_len(s.filters@[i].path) as usize,
                qos: qos_level(s.filters@[i].qos),
            }),
        Packet::SubAck(a) => m matches AppMessage::SubAck { return_codes } && return_codes@
            == a.return_codes@.map_values(|c: SubscribeReasonCode| code_of(c)),
        Packet::Unsubscribe(u) => m matches AppMessage::Unsubscribe { topic_lens } && topic_lens@.len()
            == u.topics@.len() && forall|i: int|
            0 <= i < topic_lens@.len() ==> #[trigger] topic_lens@[i] == utf8_len(u.topics@[i]) as usize,
        Packet::UnsubAck(_) => m is UnsubAck,
        Packet::PingReq => m is PingReq,
        Packet::PingResp => m is PingResp,
        Packet::Disconnect => m is Disconnect,
    }
}

/// The library's record of a decoded message whose declared length is `declared`.
pub fn message_from_packet(p: &Packet, declared: Option<usize>) -> (m: AppMessage)
    requires
        (p is Connect || p is Publish || p is Subscribe) ==> declared is Some,
    ensures
        records_packet(m, *p, declared),
{
    let len = match declared {
        Some(n) => n,
        None => 0,
    };
    match p {
        Packet::Connect(_) => AppMessage::Connect { len },
        Packet::ConnAck(_) => AppMessage::ConnAck,
        Packet::Publish(pb) => AppMessage::Publish {
            len,
            topic_len: pb.topic.as_str().len(),
            qos: qos_value(&pb.qos),
        },
        Packet::PubAck(_) => AppMessage::PubAck,
        Packet::PubRec(_) => AppMessage::PubRec,
        Packet::PubRel(_) => AppMessage::PubRel,
        Packet::PubComp(_) => AppMessage::PubComp,
        Packet::Subscribe(s) => {
            let mut filters: Vec<TopicFilter> = Vec::new();
            let mut i: usize = 0;
            while i < s.filters.len()
                invariant
                    i <= s.filters@.len(),
                    filters@.len() == i,
                    forall|j: int|
                        0 <= j < i ==> #[trigger] filters@[j] == (TopicFilter {
                            path_len: utf8_len(s.filters@[j].path) as usize,
                            qos: qos_level(s.filters@[j].qos),
                        }),
                decreases s.filters@.len() - i,
            {
                let f = &s.filters[i];
                filters.push(TopicFilter { path_len: f.path.as_str().len(), qos: qos_value(&f.qos) });
                i = i + 1;
            }
            AppMessage::Subscribe { len, filters }
        },
        Packet::SubAck(a) => {
            let mut return_codes: Vec<SubscribeCode> = Vec::new();
            let mut i: usize = 0;
            while i < a.return_codes.len()
                invariant
                    i <= a.return_codes@.len(),
                    return_codes@ == a.return_codes@.take(i as int).map_values(
                        |c: SubscribeReasonCode| code_of(c),
                    ),
                decreases a.return_codes@.len() - i,
            {
                let code = match &a.return_codes[i] {
                    SubscribeReasonCode::Success(q) => SubscribeCode::Success(qos_value(q)),
                    SubscribeReasonCode::Failure => SubscribeCode::Failure,
                };
                return_codes.push(code);
                proof {
                    assert(a.return_codes@.take(i + 1) =~= a.return_codes@.take(i as int).push(
                        a.return_codes@[i as int],
                    ));
                }
                i = i + 1;
                assert(return_codes@ =~= a.return_codes@.take(i as int).map_values(
                    |c: SubscribeReasonCode| code_of(c),
                ));
            }
            assert(a.return_codes@.take(i as int) =~= a.return_codes@);
            AppMessage::SubAck { return_codes }
        },
        Packet::Unsubscribe(u) => {
            let mut topic_lens: Vec<usize> = Vec::new();
            let mut i: usize = 0;
            while i < u.topics.len()
                invariant
                    i <= u.topics@.len(),
                    topic_lens@.len() == i,
                    forall|j: int| 0 <= j < i ==> #[trigger] topic_lens@[j] == utf8_len(u.topics@[j]) as usize,
                decreases u.topics@.len() - i,
            {
                topic_lens.push(u.topics[i].as_str().len());
                i = i + 1;
            }
            AppMessage::Unsubscribe { topic_lens }
        },
        Packet::UnsubAck(_) => AppMessage::UnsubAck,
        Packet::PingReq => AppMessage::PingReq,
        Packet::PingResp => AppMessage::PingResp,
        Packet::Disconnect => AppMessage::Disconnect,
    }
}

/// Whether `msgs` records, one for one and in order, the messages decoded from `payload`.
pub open spec fn decodes_to(msgs: Seq<AppMessage>, payload: Seq<u8>) -> bool {
    let pk = decoded_packets(payload);
    &&& msgs.len() == pk.len()
    &&& forall|i: int|
        0 <= i < msgs.len() ==> #[trigger] records_packet(
            msgs[i],
            pk[i].0,
            declared_len_at(pk[i].0, pk[i].1),
        )
}

/// Decodes the messages that follow one another at the start of `payload`, in order,
/// stopping at the first that cannot be decoded.
pub fn decode_messages(payload: &[u8]) -> (r: Vec<AppMessage>)
    ensures
        decodes_to(r@, payload@),
{
    let mut out: Vec<AppMessage> = Vec::new();
    let mut start: usize = 0;
    let ghost mut pks: Seq<(Packet, Seq<u8>)> = Seq::empty();
    let ghost all = payload@;
    assert(all.subrange(0, all.len() as int) =~= all);
    while start < payload.len()
        invariant
            start <= payload@.len(),
            all == payload@,
            out@.len() == pks.len(),
            forall|i: int|
                0 <= i < out@.len() ==> #[trigger] records_packet(
                    out@[i],
                    pks[i].0,
                    declared_len_at(pks[i].0, pks[i].1),
                ),
            decoded_packets(all) == pks + decoded_packets(all.subrange(start as int, all.len() as int)),
        decreases payload@.len() - start,
    {
        let ghost tail = all.subrange(start as int, all.len() as int);
        let (res, rest, declared) = read_packet(payload, start, MAX_MESSAGE_SIZE);
        match res {
            Ok(p) => {
                let m = message_from_packet(&p, declared);
                out.push(m);
                proof {
                    let n = mqtt_frame_len(tail).unwrap();
                    assert(tail.subrange(n as int, tail.len() as int) =~= all.subrange(
                        start + n,
                        all.len() as int,
                    ));
                    assert(decoded_packets(tail) == seq![(p, tail)] + decoded_packets(
                        tail.subrange(n as int, tail.len() as int),
                    ));
                    assert(pks + decoded_packets(tail) =~= pks.push((p, tail)) + decoded_packets(
                        tail.subrange(n as int, tail.len() as int),
                    ));
                    pks = pks.push((p, tail));
                    assert(out@[out@.len() - 1] == m);
                }
                start = payload.len() - rest;
            },
            Err(_) => {
                assert(decoded_packets(tail) =~= Seq::<(Packet, Seq<u8>)>::empty());
                assert(pks + decoded_packets(tail) =~= pks);
                assert(decodes_to(out@, payload@));
                return out;
            },
        }
    }
    proof {
        if start == payload.len() {
            let e = all.subrange(start as int, all.len() as int);
            assert(decoded_packets(e) =~= Seq::<(Packet, Seq<u8>)>::empty());
            assert(pks + decoded_packets(e) =~= pks);
        }
        assert(decodes_to(out@, payload@));
    }
    out
}

} // verus!
