//! Application messages of the publish/subscribe protocol and their features.
use vstd::prelude::*;

verus! {

/// One topic filter of a subscription: the length of its path and its requested QoS.
#[derive(Clone, Copy, Debug, PartialEq, Eq, Structural)]
pub struct TopicFilter {
    pub path_len: usize,
    pub qos: u8,
}

/// One return code of a subscription acknowledgement.
#[derive(Clone, Copy, Debug, PartialEq, Eq, Structural)]
pub enum SubscribeCode {
    Success(u8),
    Failure,
}

/// One decoded application message, holding what the features are taken from.
#[derive(Clone, Debug)]
pub enum AppMessage {
    Connect { len: usize },
    ConnAck,
    Publish { len: usize, topic_len: usize, qos: u8 },
    PubAck,
    PubRec,
    PubRel,
    PubComp,
    Subscribe { len: usize, filters: Vec<TopicFilter> },
    SubAck { return_codes: Vec<SubscribeCode> },
    Unsubscribe { topic_lens: Vec<usize> },
    UnsubAck,
    PingReq,
    PingResp,
    Disconnect,
}

/// The application fields of a feature record.
#[derive(Clone, Copy, Debug, PartialEq, Eq, Structural)]
pub struct MessageFeatures {
    pub len: usize,
    pub topic_len: usize,
    pub kind: u8,
    pub qos: u8,
}

/// The declared length of an unsubscription: two bytes, plus each topic with its
/// two-byte length prefix.
pub open spec fn unsubscribe_len(topic_lens: Seq<usize>) -> int
    decreases topic_lens.len(),
{
    if topic_lens.len() == 0 {
        2
    } else {
        unsubscribe_len(topic_lens.drop_last()) + topic_lens.last() + 2
    }
}

/// The features of a message with the given fields.
pub open spec fn features(len: int, topic_len: int, kind: u8, qos: u8) -> Option<MessageFeatures> {
    Some(MessageFeatures { len: len as usize, topic_len: topic_len as usize, kind, qos })
}

/// The QoS that a subscription return code carries, zero for a failure.
pub open spec fn code_qos(c: SubscribeCode) -> u8 {
    match c {
        SubscribeCode::Success(q) => q,
        SubscribeCode::Failure => 0,
    }
}

/// What a message contributes to its feature record, following the fixed table of
/// kinds; `None` for a subscription, acknowledgement or unsubscription with no entry,
/// and for a declared length beyond `usize`.
pub open spec fn features_of(m: AppMessage) -> Option<MessageFeatures> {
    match m {
        AppMessage::Connect { len } => features(len as int, 0, 1, 0),
        AppMessage::ConnAck => features(2, 0, 2, 0),
        AppMessage::Publish { len, topic_len, qos } => features(len as int, topic_len as int, 3, qos),
        AppMessage::PubAck => features(2, 0, 4, 0),
        AppMessage::PubRec => features(2, 0, 5, 0),
        AppMessage::PubRel => features(2, 0, 6, 0),
        AppMessage::PubComp => features(2, 0, 7, 0),
        AppMessage::Subscribe { len, filters } => if filters@.len() == 0 {
            None
        } else {
            features(len as int, filters@[0].path_len as int, 8, filters@[0].qos)
        },
        AppMessage::SubAck { return_codes } => if return_codes@.len() == 0 || 2
            + return_codes@.len() > usize::MAX {
            None
        } else {
            features(2 + return_codes@.len() as int, 0, 9, code_qos(return_codes@[0]))
        },
        AppMessage::Unsubscribe { topic_lens } => if topic_lens@.len() == 0
            || unsubscribe_len(topic_lens@) > usize::MAX {
            None
        } else {
            features(unsubscribe_len(topic_lens@), topic_lens@[0] as int, 10, 0)
        },
        AppMessage::UnsubAck => features(2, 0, 11, 0),
        AppMessage::PingReq => features(0, 0, 12, 0),
        AppMessage::PingResp => features(0, 0, 13, 0),
        AppMessage::Disconnect => features(0, 0, 14, 0),
    }
}

proof fn lemma_unsubscribe_len_grows(lens: Seq<usize>, k: int)
    requires
        0 <= k <= lens.len(),
    ensures
        unsubscribe_len(lens.take(k)) <= unsubscribe_len(lens),
    decreases lens.len() - k,
{
    if k < lens.len() {
        lemma_unsubscribe_len_grows(lens, k + 1);
        assert(lens.take(k + 1).drop_last() =~= lens.take(k));
    } else {
        assert(lens.take(k) =~= lens);
    }
}

/// The declared length of an unsubscription, or `None` where it exceeds `usize`.
fn unsubscribe_total(topic_lens: &Vec<usize>) -> (r: Option<usize>)
    ensures
        r is Some <==> unsubscribe_len(topic_lens@) <= usize::MAX,
        r matches Some(v) ==> v == unsubscribe_len(topic_lens@),
{
    let mut total: usize = 2;
    let mut i: usize = 0;
    while i < topic_lens.len()
        invariant
            0 <= i <= topic_lens@.len(),
            total == unsubscribe_len(topic_lens@.take(i as int)),
        decreases topic_lens@.len() - i,
    {
        proof {
            assert(topic_lens@.take(i + 1).drop_last() =~= topic_lens@.take(i as int));
            lemma_unsubscribe_len_grows(topic_lens@, i + 1);
        }
        let t = topic_lens[i];
        if total > usize::MAX - 2 || t > usize::MAX - 2 - total {
            return None;
        }
        total = total + t + 2;
        i = i + 1;
    }
    assert(topic_lens@.take(i as int) =~= topic_lens@);
    Some(total)
}

/// The feature fields for one message, by the fixed table of kinds. A subscription,
/// acknowledgement or unsubscription without any entry gives `None`: no record.
pub fn classify(m: &AppMessage) -> (r: Option<MessageFeatures>)
    ensures
        r == features_of(*m),
{
    match m {
        AppMessage::Connect { len } => Some(MessageFeatures { len: *len, topic_len: 0, kind: 1, qos: 0 }),
        AppMessage::ConnAck => Some(MessageFeatures { len: 2, topic_len: 0, kind: 2, qos: 0 }),
        AppMessage::Publish { len, topic_len, qos } => Some(
            MessageFeatures { len: *len, topic_len: *topic_len, kind: 3, qos: *qos },
        ),
        AppMessage::PubAck => Some(MessageFeatures { len: 2, topic_len: 0, kind: 4, qos: 0 }),
        AppMessage::PubRec => Some(MessageFeatures { len: 2, topic_len: 0, kind: 5, qos: 0 }),
        AppMessage::PubRel => Some(MessageFeatures { len: 2, topic_len: 0, kind: 6, qos: 0 }),
        AppMessage::PubComp => Some(MessageFeatures { len: 2, topic_len: 0, kind: 7, qos: 0 }),
        AppMessage::Subscribe { len, filters } => {
            if filters.len() == 0 {
                None
            } else {
                let f = filters[0];
                Some(MessageFeatures { len: *len, topic_len: f.path_len, kind: 8, qos: f.qos })
            }
        },
        AppMessage::SubAck { return_codes } => {
            if return_codes.len() == 0 || return_codes.len() > usize::MAX - 2 {
                None
            } else {
                let qos = match return_codes[0] {
                    SubscribeCode::Success(q) => q,
                    SubscribeCode::Failure => 0,
                };
                Some(MessageFeatures { len: 2 + return_codes.len(), topic_len: 0, kind: 9, qos })
            }
        },
        AppMessage::Unsubscribe { topic_lens } => {
            if topic_lens.len() == 0 {
                None
            } else {
                match unsubscribe_total(topic_lens) {
                    Some(total) => Some(
                        MessageFeatures { len: total, topic_len: topic_lens[0], kind: 10, qos: 0 },
                    ),
                    None => None,
                }
            }
        },
        AppMessage::UnsubAck => Some(MessageFeatures { len: 2, topic_len: 0, kind: 11, qos: 0 }),
        AppMessage::PingReq => Some(MessageFeatures { len: 0, topic_len: 0, kind: 12, qos: 0 }),
        AppMessage::PingResp => Some(MessageFeatures { len: 0, topic_len: 0, kind: 13, qos: 0 }),
        AppMessage::Disconnect => Some(MessageFeatures { len: 0, topic_len: 0, kind: 14, qos: 0 }),
    }
}

/// A keep-alive or disconnect message carries no length, topic or QoS, and its kind
/// code is twelve, thirteen or fourteen.
pub proof fn lemma_control_messages_are_empty(m: AppMessage)
    requires
        m is PingReq || m is PingResp || m is Disconnect,
    ensures
        features_of(m) matches Some(f) && f.len == 0 && f.topic_len == 0 && f.qos == 0,
        m is PingReq ==> features_of(m).unwrap().kind == 12,
        m is PingResp ==> features_of(m).unwrap().kind == 13,
        m is Disconnect ==> features_of(m).unwrap().kind == 14,
{
}

/// A subscription or unsubscription that lists nothing yields no features.
pub proof fn lemma_empty_subscription_yields_nothing(m: AppMessage)
    requires
        (m matches AppMessage::Subscribe { filters, .. } && filters@.len() == 0) || (
        m matches AppMessage::Unsubscribe { topic_lens } && topic_lens@.len() == 0),
    ensures
        features_of(m) is None,
{
}

} // verus!
