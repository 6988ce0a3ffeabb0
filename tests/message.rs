use mqtt_features::message::{classify, AppMessage, MessageFeatures, SubscribeCode, TopicFilter};

fn feats(len: usize, topic_len: usize, kind: u8, qos: u8) -> Option<MessageFeatures> {
    Some(MessageFeatures { len, topic_len, kind, qos })
}

#[test]
fn publish_features() {
    let m = AppMessage::Publish { len: 9, topic_len: 3, qos: 1 };
    assert_eq!(classify(&m), feats(9, 3, 3, 1));
}

#[test]
fn fixed_length_kinds() {
    assert_eq!(classify(&AppMessage::Connect { len: 14 }), feats(14, 0, 1, 0));
    assert_eq!(classify(&AppMessage::ConnAck), feats(2, 0, 2, 0));
    assert_eq!(classify(&AppMessage::PubAck), feats(2, 0, 4, 0));
    assert_eq!(classify(&AppMessage::PubRec), feats(2, 0, 5, 0));
    assert_eq!(classify(&AppMessage::PubRel), feats(2, 0, 6, 0));
    assert_eq!(classify(&AppMessage::PubComp), feats(2, 0, 7, 0));
    assert_eq!(classify(&AppMessage::UnsubAck), feats(2, 0, 11, 0));
}

#[test]
fn control_messages_have_no_fields() {
    assert_eq!(classify(&AppMessage::PingReq), feats(0, 0, 12, 0));
    assert_eq!(classify(&AppMessage::PingResp), feats(0, 0, 13, 0));
    assert_eq!(classify(&AppMessage::Disconnect), feats(0, 0, 14, 0));
}

#[test]
fn subscribe_uses_first_filter() {
    let m = AppMessage::Subscribe {
        len: 12,
        filters: vec![TopicFilter { path_len: 5, qos: 2 }, TopicFilter { path_len: 1, qos: 0 }],
    };
    assert_eq!(classify(&m), feats(12, 5, 8, 2));
}

#[test]
fn suback_counts_codes_and_reads_first() {
    let ok = AppMessage::SubAck { return_codes: vec![SubscribeCode::Success(1), SubscribeCode::Failure] };
    assert_eq!(classify(&ok), feats(4, 0, 9, 1));
    let failed = AppMessage::SubAck { return_codes: vec![SubscribeCode::Failure, SubscribeCode::Success(2)] };
    assert_eq!(classify(&failed), feats(4, 0, 9, 0));
}

#[test]
fn unsubscribe_sums_prefixed_topics() {
    let m = AppMessage::Unsubscribe { topic_lens: vec![3, 4] };
    // 2 + (3 + 2) + (4 + 2)
    assert_eq!(classify(&m), feats(13, 3, 10, 0));
}

#[test]
fn empty_lists_give_no_features() {
    assert_eq!(classify(&AppMessage::Subscribe { len: 2, filters: vec![] }), None);
    assert_eq!(classify(&AppMessage::Unsubscribe { topic_lens: vec![] }), None);
    assert_eq!(classify(&AppMessage::SubAck { return_codes: vec![] }), None);
}
