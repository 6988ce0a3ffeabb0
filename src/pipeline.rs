//! The extraction pipeline: from the layers of each frame to its feature records.
use vstd::prelude::*;
use crate::layers::{
    after_prefix, slice_frame, sliced, sliced_as, Encapsulation, FrameLayers, SliceError,
    TransportFields,
};
use crate::message::{classify, features_of, AppMessage};
use crate::mqtt::{decode_messages, decoded_packets, declared_len_at, decodes_to, records_packet};
use mqttbytes::v4::Packet;
use crate::record::{
    same_headers, segment_len, with_message, with_network, with_transport, zero_record,
    FeatureRecord,
};
use crate::window::{gap_from, next_average, next_window, timestamp_in_range, TimingWindow};

verus! {

/// Which frames give records.
#[derive(Clone, Copy, Debug, PartialEq, Eq, Structural)]
pub enum EmissionPolicy {
    /// A record only for a frame with IPv4, TCP and a decodable first message, for that message.
    Strict,
    /// A record for every IPv4 frame: one per decoded message, or one with zero
    /// application (and, without TCP, transport) fields when there is none.
    Exhaustive,
}

/// How frames are read and which of them give records.
#[derive(Clone, Copy, Debug, PartialEq, Eq, Structural)]
pub struct ExtractorConfig {
    pub policy: EmissionPolicy,
    pub encapsulation: Encapsulation,
    /// Bytes of capture framing before the first header.
    pub prefix_len: usize,
    /// Segments from or to this port are treated as if they carried no TCP layer.
    pub excluded_port: Option<u16>,
}

/// Why a frame stopped the run.
#[derive(Clone, Copy, Debug, PartialEq, Eq, Structural)]
pub enum FrameError {
    ShorterThanPrefix,
    Malformed,
    TimestampOutOfRange,
}

/// A frame that has been sliced into layers, with its capture time.
#[derive(Clone, Debug)]
pub struct SlicedFrame {
    pub layers: FrameLayers,
    pub ts_sec: i64,
    pub ts_usec: i64,
}

/// The capture time in microseconds.
pub open spec fn micros_of(sec: i64, usec: i64) -> int {
    sec * 1000000 + usec
}

/// The capture time in microseconds, where the timing window accepts it.
pub fn timestamp_micros(sec: i64, usec: i64) -> (r: Option<i64>)
    ensures
        r is Some <==> timestamp_in_range(micros_of(sec, usec)),
        r matches Some(t) ==> t == micros_of(sec, usec),
{
    let limit: i128 = crate::window::MAX_TIMESTAMP_US as i128;
    let t: i128 = (sec as i128) * 1000000 + (usec as i128);
    if t > limit || t < -limit {
        None
    } else {
        Some(t as i64)
    }
}

/// The TCP layer when it is there and not on the excluded port.
pub open spec fn accepted_transport(t: Option<TransportFields>, excluded: Option<u16>) -> Option<
    TransportFields,
> {
    match t {
        Some(tf) => match excluded {
            Some(p) => if tf.src_port == p || tf.dst_port == p {
                None
            } else {
                Some(tf)
            },
            None => Some(tf),
        },
        None => None,
    }
}

/// One record per message of `msgs`, in order, up to the first that yields no features.
pub open spec fn message_records(base: FeatureRecord, msgs: Seq<AppMessage>) -> Seq<FeatureRecord>
    decreases msgs.len(),
{
    if msgs.len() == 0 {
        Seq::empty()
    } else {
        match features_of(msgs[0]) {
            Some(f) => seq![with_message(base, f)] + message_records(
                base,
                msgs.subrange(1, msgs.len() as int),
            ),
            None => Seq::empty(),
        }
    }
}

/// The records of a frame with the given layers, timing values and decoded messages.
pub open spec fn frame_records(
    policy: EmissionPolicy,
    layers: FrameLayers,
    excluded: Option<u16>,
    delta: i64,
    avg: i64,
    msgs: Seq<AppMessage>,
) -> Seq<FeatureRecord> {
    match layers.network {
        None => Seq::empty(),
        Some(n) => {
            let r0 = with_network(zero_record(layers.packet_len), n);
            match accepted_transport(layers.transport, excluded) {
                None => if policy == EmissionPolicy::Exhaustive {
                    seq![r0]
                } else {
                    Seq::empty()
                },
                Some(t) => {
                    let base = with_transport(
                        r0,
                        t,
                        segment_len(t.header_len, layers.payload@.len()),
                        delta,
                        avg,
                    );
                    if msgs.len() == 0 {
                        if policy == EmissionPolicy::Exhaustive {
                            seq![base]
                        } else {
                            Seq::empty()
                        }
                    } else if policy == EmissionPolicy::Strict {
                        message_records(base, msgs.take(1))
                    } else {
                        message_records(base, msgs)
                    }
                },
            }
        },
    }
}

/// One record per message of `msgs[..limit]`, in order, up to the first without features.
fn push_message_records(out: &mut Vec<FeatureRecord>, base: FeatureRecord, msgs: &Vec<AppMessage>, limit: usize)
    requires
        limit <= msgs@.len(),
    ensures
        final(out)@ == old(out)@ + message_records(base, msgs@.take(limit as int)),
{
    let ghost all = msgs@.take(limit as int);
    let mut i: usize = 0;
    assert(all.subrange(0, limit as int) =~= all);
    while i < limit
        invariant
            i <= limit <= msgs@.len(),
            all == msgs@.take(limit as int),
            old(out)@ + message_records(base, all) == out@ + message_records(
                base,
                all.subrange(i as int, limit as int),
            ),
        decreases limit - i,
    {
        let ghost rest = all.subrange(i as int, limit as int);
        assert(rest[0] == msgs@[i as int]);
        assert(rest.subrange(1, rest.len() as int) =~= all.subrange(i + 1, limit as int));
        match classify(&msgs[i]) {
            Some(f) => {
                let mut r = base;
                r.set_message(&f);
                out.push(r);
                i = i + 1;
                assert(out@ + message_records(base, all.subrange(i as int, limit as int)) =~= old(
                    out,
                )@ + message_records(base, all));
            },
            None => {
                assert(all.subrange(limit as int, limit as int) =~= Seq::<AppMessage>::empty());
                i = limit;
                assert(out@ + message_records(base, all.subrange(i as int, limit as int)) =~= old(
                    out,
                )@ + message_records(base, all));
            },
        }
    }
    assert(all.subrange(limit as int, limit as int) =~= Seq::<AppMessage>::empty());
    assert(out@ =~= old(out)@ + message_records(base, all));
}

/// The records of a frame with the given layers, timing values and decoded messages.
pub fn records_for(
    policy: EmissionPolicy,
    layers: &FrameLayers,
    excluded: Option<u16>,
    delta: i64,
    avg: i64,
    msgs: &Vec<AppMessage>,
) -> (r: Vec<FeatureRecord>)
    ensures
        r@ == frame_records(policy, *layers, excluded, delta, avg, msgs@),
{
    let mut out: Vec<FeatureRecord> = Vec::new();
    match &layers.network {
        None => {},
        Some(n) => {
            let mut r0 = FeatureRecord::new(layers.packet_len);
            r0.set_network(n);
            let accepted = match &layers.transport {
                Some(t) => match excluded {
                    Some(p) => if t.src_port == p || t.dst_port == p {
                        None
                    } else {
                        Some(*t)
                    },
                    None => Some(*t),
                },
                None => None,
            };
            match accepted {
                None => {
                    if policy == EmissionPolicy::Exhaustive {
                        out.push(r0);
                    }
                },
                Some(t) => {
                    let mut base = r0;
                    let seg: usize = if t.header_len > usize::MAX - layers.payload.len() {
                        usize::MAX
                    } else {
                        t.header_len + layers.payload.len()
                    };
                    base.set_transport(&t, seg, delta, avg);
                    if msgs.len() == 0 {
                        if policy == EmissionPolicy::Exhaustive {
                            out.push(base);
                        }
                    } else if policy == EmissionPolicy::Strict {
                        push_message_records(&mut out, base, msgs, 1);
                    } else {
                        push_message_records(&mut out, base, msgs, msgs.len());
                        assert(msgs@.take(msgs@.len() as int) =~= msgs@);
                    }
                },
            }
        },
    }
    assert(out@ =~= frame_records(policy, *layers, excluded, delta, avg, msgs@));
    out
}

/// What processing one sliced frame does: a frame without IPv4 gives nothing and leaves
/// the window; one with IPv4 and a capture time out of range is refused and leaves it too;
/// any other advances the window by its gap and gives the records of `frame_records` for
/// the messages `msgs` of its payload.
pub open spec fn frame_outcome(
    before: Extractor,
    after: Extractor,
    layers: FrameLayers,
    ts_sec: i64,
    ts_usec: i64,
    msgs: Seq<AppMessage>,
    r: Result<Vec<FeatureRecord>, FrameError>,
) -> bool {
    &&& after.wf()
    &&& after.cfg() == before.cfg()
    &&& layers.network is None ==> (r matches Ok(v) && v@.len() == 0) && after.timing()
        == before.timing()
    &&& layers.network is Some && !timestamp_in_range(micros_of(ts_sec, ts_usec)) ==> r
        == Err::<Vec<FeatureRecord>, FrameError>(FrameError::TimestampOutOfRange)
        && after.timing() == before.timing()
    &&& layers.network is Some && timestamp_in_range(micros_of(ts_sec, ts_usec)) ==> ({
        let ts = micros_of(ts_sec, ts_usec) as i64;
        let w = before.timing();
        let delta = gap_from(w.prev_spec(), ts);
        let avg = next_average(w.avg_spec(), w.window_spec(), delta);
        &&& after.timing().prev_spec() == Some(ts)
        &&& after.timing().history() == w.history().push(delta as i64)
        &&& after.timing().window_spec() == next_window(w.window_spec(), delta as i64)
        &&& after.timing().avg_spec() == avg
        &&& (r matches Ok(v) && v@ == frame_records(
            before.cfg().policy,
            layers,
            before.cfg().excluded_port,
            delta as i64,
            avg as i64,
            msgs,
        ))
    })
}

/// Whether processing `frames` in order takes the extractor from `before` to `after`
/// without an error, giving the records `out`: each frame's records, in order, from the
/// state that the frames before it left.
pub open spec fn run_ok(
    before: Extractor,
    after: Extractor,
    frames: Seq<SlicedFrame>,
    out: Seq<FeatureRecord>,
) -> bool
    decreases frames.len(),
{
    if frames.len() == 0 {
        after == before && out.len() == 0
    } else {
        let f = frames.last();
        exists|mid: Extractor, msgs: Seq<AppMessage>, v: Vec<FeatureRecord>|
            #[trigger] frame_outcome(
                mid,
                after,
                f.layers,
                f.ts_sec,
                f.ts_usec,
                msgs,
                Ok::<Vec<FeatureRecord>, FrameError>(v),
            ) && v@.len() <= out.len() && run_ok(
                before,
                mid,
                frames.drop_last(),
                out.subrange(0, out.len() - v@.len()),
            ) && decodes_to(msgs, f.layers.payload@) && out == out.subrange(
                0,
                out.len() - v@.len(),
            ) + v@
    }
}

/// Turns captured frames into feature records, keeping the timing window across frames.
pub struct Extractor {
    config: ExtractorConfig,
    window: TimingWindow,
}

impl Extractor {
    /// The configuration.
    pub closed spec fn cfg(&self) -> ExtractorConfig {
        self.config
    }

    /// The configuration.
    pub fn config(&self) -> (r: ExtractorConfig)
        ensures
            r == self.cfg(),
    {
        self.config
    }

    /// The timing window.
    pub closed spec fn timing(&self) -> TimingWindow {
        self.window
    }

    /// The extractor's invariant.
    pub open spec fn wf(&self) -> bool {
        self.timing().wf()
    }

    /// An extractor that has seen no frame.
    pub fn new(config: ExtractorConfig) -> (r: Extractor)
        ensures
            r.wf(),
            r.cfg() == config,
            r.timing().prev_spec() is None,
            r.timing().window_spec().len() == 0,
            r.timing().avg_spec() == 0,
    {
        Extractor { config, window: TimingWindow::new() }
    }

    /// Forgets the timing history.
    pub fn reset(&mut self)
        requires
            old(self).wf(),
        ensures
            final(self).wf(),
            final(self).cfg() == old(self).cfg(),
            final(self).timing().prev_spec() is None,
            final(self).timing().window_spec().len() == 0,
            final(self).timing().avg_spec() == 0,
    {
        self.window.reset();
    }

    /// The current sliding average.
    pub fn average(&self) -> (r: i64)
        ensures
            r == self.timing().avg_spec(),
    {
        self.window.average()
    }

    /// The records of one sliced frame whose payload decodes to `msgs`. A frame without
    /// IPv4 gives nothing and leaves the window as it was; any other advances the window,
    /// unless its capture time is out of range.
    pub fn process_decoded(
        &mut self,
        layers: &FrameLayers,
        ts_sec: i64,
        ts_usec: i64,
        msgs: &Vec<AppMessage>,
    ) -> (r: Result<Vec<FeatureRecord>, FrameError>)
        requires
            old(self).wf(),
        ensures
            frame_outcome(*old(self), *final(self), *layers, ts_sec, ts_usec, msgs@, r),
    {
        if layers.network.is_none() {
            return Ok(Vec::new());
        }
        let ts = match timestamp_micros(ts_sec, ts_usec) {
            Some(t) => t,
            None => {
                return Err(FrameError::TimestampOutOfRange);
            },
        };
        let (delta, avg) = self.window.update(ts);
        Ok(records_for(self.config.policy, layers, self.config.excluded_port, delta, avg, msgs))
    }

    /// The records of one sliced frame, decoding its payload. As `process_decoded`, for
    /// the messages that the payload decodes to.
    pub fn process_layers(&mut self, layers: &FrameLayers, ts_sec: i64, ts_usec: i64) -> (r: Result<
        Vec<FeatureRecord>,
        FrameError,
    >)
        requires
            old(self).wf(),
        ensures
            exists|msgs: Seq<AppMessage>|
                decodes_to(msgs, layers.payload@) && #[trigger] frame_outcome(
                    *old(self),
                    *final(self),
                    *layers,
                    ts_sec,
                    ts_usec,
                    msgs,
                    r,
                ),
    {
        let msgs = decode_messages(layers.payload.as_slice());
        self.process_decoded(layers, ts_sec, ts_usec, &msgs)
    }

    /// The records of one raw frame: its capture prefix is dropped and the rest sliced as
    /// configured. A frame that cannot be sliced stops with an error and leaves the window.
    pub fn process_frame(&mut self, data: &[u8], ts_sec: i64, ts_usec: i64) -> (r: Result<
        Vec<FeatureRecord>,
        FrameError,
    >)
        requires
            old(self).wf(),
        ensures
            final(self).wf(),
            final(self).cfg() == old(self).cfg(),
            old(self).cfg().prefix_len > data@.len() ==> r == Err::<
                Vec<FeatureRecord>,
                FrameError,
            >(FrameError::ShorterThanPrefix) && final(self).timing() == old(self).timing(),
            old(self).cfg().prefix_len <= data@.len() ==> match sliced(
                old(self).cfg().encapsulation,
                after_prefix(data@, old(self).cfg().prefix_len),
            ) {
                None => r == Err::<Vec<FeatureRecord>, FrameError>(FrameError::Malformed)
                    && final(self).timing() == old(self).timing(),
                Some(payload) => exists|l: FrameLayers, msgs: Seq<AppMessage>|
                    l.packet_len == data@.len() && sliced_as(
                        l,
                        old(self).cfg().encapsulation,
                        after_prefix(data@, old(self).cfg().prefix_len),
                        payload,
                    ) && decodes_to(msgs, payload)
                        && #[trigger] frame_outcome(
                        *old(self),
                        *final(self),
                        l,
                        ts_sec,
                        ts_usec,
                        msgs,
                        r,
                    ),
            },
    {
        match slice_frame(data, self.config.prefix_len, self.config.encapsulation) {
            Ok(layers) => self.process_layers(&layers, ts_sec, ts_usec),
            Err(SliceError::ShorterThanPrefix) => Err(FrameError::ShorterThanPrefix),
            Err(SliceError::Malformed) => Err(FrameError::Malformed),
        }
    }

    /// The records of a sequence of sliced frames, in order, stopping at the first error.
    /// A sequence in which no frame has IPv4 gives no record and leaves the window as it was.
    pub fn process_all(&mut self, frames: &Vec<SlicedFrame>) -> (r: Result<Vec<FeatureRecord>, FrameError>)
        requires
            old(self).wf(),
        ensures
            final(self).wf(),
            final(self).cfg() == old(self).cfg(),
            r matches Ok(v) ==> run_ok(*old(self), *final(self), frames@, v@),
            r matches Err(e) ==> exists|
                i: int,
                mid: Extractor,
                prev: Seq<FeatureRecord>,
                msgs: Seq<AppMessage>,
            |
                #![trigger run_ok(*old(self), mid, frames@.take(i), prev), frame_outcome(
                    mid,
                    *final(self),
                    frames@[i].layers,
                    frames@[i].ts_sec,
                    frames@[i].ts_usec,
                    msgs,
                    Err::<Vec<FeatureRecord>, FrameError>(e),
                )]
                0 <= i < frames@.len() && run_ok(*old(self), mid, frames@.take(i), prev)
                    && decodes_to(msgs, frames@[i].layers.payload@) && frame_outcome(
                    mid,
                    *final(self),
                    frames@[i].layers,
                    frames@[i].ts_sec,
                    frames@[i].ts_usec,
                    msgs,
                    Err::<Vec<FeatureRecord>, FrameError>(e),
                ),
            (forall|i: int| 0 <= i < frames@.len() ==> (#[trigger] frames@[i]).layers.network is None)
                ==> (r matches Ok(v) && v@.len() == 0) && final(self).timing() == old(self).timing(),
    {
        let mut out: Vec<FeatureRecord> = Vec::new();
        let mut i: usize = 0;
        assert(frames@.take(0) =~= Seq::<SlicedFrame>::empty());
        while i < frames.len()
            invariant
                self.wf(),
                self.cfg() == old(self).cfg(),
                i <= frames@.len(),
                run_ok(*old(self), *self, frames@.take(i as int), out@),
                (forall|j: int| 0 <= j < frames@.len() ==> (#[trigger] frames@[j]).layers.network is None)
                    ==> out@.len() == 0 && self.timing() == old(self).timing(),
            decreases frames@.len() - i,
        {
            let ghost mid = *self;
            let ghost prev = out@;
            let f = &frames[i];
            let res = self.process_layers(&f.layers, f.ts_sec, f.ts_usec);
            let ghost msgs = choose|msgs: Seq<AppMessage>|
                decodes_to(msgs, f.layers.payload@) && #[trigger] frame_outcome(
                    mid,
                    *self,
                    f.layers,
                    f.ts_sec,
                    f.ts_usec,
                    msgs,
                    res,
                );
            match res {
                Ok(v) => {
                    let ghost gv = v;
                    let mut v = v;
                    out.append(&mut v);
                    proof {
                        let t = frames@.take(i + 1);
                        assert(t.drop_last() =~= frames@.take(i as int));
                        assert(t.last() == frames@[i as int]);
                        assert(out@ == prev + gv@);
                        assert(run_ok(*old(self), mid, t.drop_last(), prev));
                        assert(frame_outcome(
                            mid,
                            *self,
                            t.last().layers,
                            t.last().ts_sec,
                            t.last().ts_usec,
                            msgs,
                            Ok::<Vec<FeatureRecord>, FrameError>(gv),
                        ));
                        lemma_run_ok_step(*old(self), mid, *self, t, prev, msgs, gv, out@);
                        assert(run_ok(*old(self), *self, t, out@));
                    }
                },
                Err(e) => {
                    proof {
                        assert(run_ok(*old(self), mid, frames@.take(i as int), prev));
                        assert(frame_outcome(
                            mid,
                            *self,
                            frames@[i as int].layers,
                            frames@[i as int].ts_sec,
                            frames@[i as int].ts_usec,
                            msgs,
                            Err::<Vec<FeatureRecord>, FrameError>(e),
                        ));
                    }
                    return Err(e);
                },
            }
            i = i + 1;
        }
        assert(frames@.take(frames@.len() as int) =~= frames@);
        Ok(out)
    }
}

/// One more frame processed without an error extends a run.
proof fn lemma_run_ok_step(
    before: Extractor,
    mid: Extractor,
    after: Extractor,
    frames: Seq<SlicedFrame>,
    prev: Seq<FeatureRecord>,
    msgs: Seq<AppMessage>,
    v: Vec<FeatureRecord>,
    out: Seq<FeatureRecord>,
)
    requires
        frames.len() > 0,
        run_ok(before, mid, frames.drop_last(), prev),
        frame_outcome(
            mid,
            after,
            frames.last().layers,
            frames.last().ts_sec,
            frames.last().ts_usec,
            msgs,
            Ok::<Vec<FeatureRecord>, FrameError>(v),
        ),
        decodes_to(msgs, frames.last().layers.payload@),
        out == prev + v@,
    ensures
        run_ok(before, after, frames, out),
{
    assert(out.subrange(0, out.len() - v@.len()) =~= prev);
}

/// Two messages in one TCP segment give, in exhaustive mode, two records in the order of
/// the messages, equal in every network and transport field and each carrying the
/// application fields of its own message.
pub proof fn lemma_two_messages_two_records(
    layers: FrameLayers,
    excluded: Option<u16>,
    delta: i64,
    avg: i64,
    msgs: Seq<AppMessage>,
)
    requires
        layers.network is Some,
        accepted_transport(layers.transport, excluded) is Some,
        msgs.len() == 2,
        features_of(msgs[0]) is Some,
        features_of(msgs[1]) is Some,
    ensures
        ({
            let r = frame_records(EmissionPolicy::Exhaustive, layers, excluded, delta, avg, msgs);
            &&& r.len() == 2
            &&& same_headers(r[0], r[1])
            &&& r[0] == with_message(r[0], features_of(msgs[0]).unwrap())
            &&& r[1] == with_message(r[1], features_of(msgs[1]).unwrap())
        }),
{
    let rest = msgs.subrange(1, 2);
    assert(rest.subrange(1, 1) =~= Seq::<AppMessage>::empty());
    assert(rest[0] == msgs[1]);
    reveal_with_fuel(message_records, 3);
}

/// A segment whose only message is a subscription or unsubscription listing nothing
/// gives no record, in either mode, and the run goes on.
pub proof fn lemma_empty_subscription_no_record(
    policy: EmissionPolicy,
    layers: FrameLayers,
    excluded: Option<u16>,
    delta: i64,
    avg: i64,
    m: AppMessage,
)
    requires
        layers.network is Some,
        accepted_transport(layers.transport, excluded) is Some,
        (m matches AppMessage::Subscribe { filters, .. } && filters@.len() == 0) || (
        m matches AppMessage::Unsubscribe { topic_lens } && topic_lens@.len() == 0),
    ensures
        frame_records(policy, layers, excluded, delta, avg, seq![m]).len() == 0,
{
    assert(seq![m].take(1) =~= seq![m]);
    assert(seq![m][0] == m);
}


/// Whether two extractors agree on their configuration and timing window.
pub open spec fn same_state(a: Extractor, b: Extractor) -> bool {
    &&& a.cfg() == b.cfg()
    &&& a.timing().prev_spec() == b.timing().prev_spec()
    &&& a.timing().window_spec() == b.timing().window_spec()
    &&& a.timing().avg_spec() == b.timing().avg_spec()
    &&& a.timing().history() == b.timing().history()
}

/// Two records of one decoded message give the same features.
proof fn lemma_same_packet_same_features(a: AppMessage, b: AppMessage, p: Packet, d: Option<usize>)
    requires
        records_packet(a, p, d),
        records_packet(b, p, d),
    ensures
        features_of(a) == features_of(b),
{
    match p {
        Packet::Subscribe(s) => {
            if let (AppMessage::Subscribe { filters: fa, .. }, AppMessage::Subscribe { filters: fb, .. }) = (a, b) {
                if fa@.len() > 0 {
                    assert(fa@[0] == fb@[0]);
                }
            }
        },
        Packet::Unsubscribe(u) => {
            if let (AppMessage::Unsubscribe { topic_lens: ta }, AppMessage::Unsubscribe { topic_lens: tb }) = (a, b) {
                assert(ta@ =~= tb@);
            }
        },
        _ => {},
    }
}

/// Two message sequences whose features agree one for one give the same records.
proof fn lemma_message_records_agree(base: FeatureRecord, m1: Seq<AppMessage>, m2: Seq<AppMessage>)
    requires
        m1.len() == m2.len(),
        forall|i: int| 0 <= i < m1.len() ==> features_of(#[trigger] m1[i]) == features_of(m2[i]),
    ensures
        message_records(base, m1) == message_records(base, m2),
    decreases m1.len(),
{
    if m1.len() > 0 {
        let t1 = m1.subrange(1, m1.len() as int);
        let t2 = m2.subrange(1, m2.len() as int);
        assert forall|i: int| 0 <= i < t1.len() implies features_of(#[trigger] t1[i]) == features_of(t2[i]) by {
            assert(t1[i] == m1[i + 1]);
            assert(t2[i] == m2[i + 1]);
        }
        lemma_message_records_agree(base, t1, t2);
        assert(features_of(m1[0]) == features_of(m2[0]));
    }
}

/// Messages decoded from the same payload give the same features one for one.
proof fn lemma_decoded_features_agree(m1: Seq<AppMessage>, m2: Seq<AppMessage>, payload: Seq<u8>)
    requires
        decodes_to(m1, payload),
        decodes_to(m2, payload),
    ensures
        m1.len() == m2.len(),
        forall|i: int| 0 <= i < m1.len() ==> features_of(#[trigger] m1[i]) == features_of(m2[i]),
{
    let pk = decoded_packets(payload);
    assert forall|i: int| 0 <= i < m1.len() implies features_of(#[trigger] m1[i]) == features_of(m2[i]) by {
        assert(records_packet(m1[i], pk[i].0, declared_len_at(pk[i].0, pk[i].1)));
        assert(records_packet(m2[i], pk[i].0, declared_len_at(pk[i].0, pk[i].1)));
        lemma_same_packet_same_features(m1[i], m2[i], pk[i].0, declared_len_at(pk[i].0, pk[i].1));
    }
}

/// One frame processed from agreeing states gives the same result and agreeing states.
proof fn lemma_frame_outcome_agrees(
    b1: Extractor,
    a1: Extractor,
    b2: Extractor,
    a2: Extractor,
    f: SlicedFrame,
    m1: Seq<AppMessage>,
    m2: Seq<AppMessage>,
    v1: Vec<FeatureRecord>,
    v2: Vec<FeatureRecord>,
)
    requires
        same_state(b1, b2),
        frame_outcome(b1, a1, f.layers, f.ts_sec, f.ts_usec, m1, Ok::<Vec<FeatureRecord>, FrameError>(v1)),
        frame_outcome(b2, a2, f.layers, f.ts_sec, f.ts_usec, m2, Ok::<Vec<FeatureRecord>, FrameError>(v2)),
        decodes_to(m1, f.layers.payload@),
        decodes_to(m2, f.layers.payload@),
    ensures
        v1@ == v2@,
        same_state(a1, a2),
{
    lemma_decoded_features_agree(m1, m2, f.layers.payload@);
    let t1 = m1.take(1);
    let t2 = m2.take(1);
    if m1.len() > 0 {
        assert forall|i: int| 0 <= i < t1.len() implies features_of(#[trigger] t1[i]) == features_of(t2[i]) by {
            assert(t1[i] == m1[i]);
            assert(t2[i] == m2[i]);
        }
    }
    match f.layers.network {
        Some(n) => {
            if timestamp_in_range(micros_of(f.ts_sec, f.ts_usec)) {
                let w = b1.timing();
                let ts = micros_of(f.ts_sec, f.ts_usec) as i64;
                let delta = gap_from(w.prev_spec(), ts);
                let avg = next_average(w.avg_spec(), w.window_spec(), delta);
                match accepted_transport(f.layers.transport, b1.cfg().excluded_port) {
                    Some(t) => {
                        let base = with_transport(
                            with_network(zero_record(f.layers.packet_len), n),
                            t,
                            segment_len(t.header_len, f.layers.payload@.len()),
                            delta as i64,
                            avg as i64,
                        );
                        lemma_message_records_agree(base, m1, m2);
                        if m1.len() > 0 {
                            lemma_message_records_agree(base, t1, t2);
                        }
                    },
                    None => {},
                }
            }
        },
        None => {},
    }
}

/// Processing the same frames from the same state twice gives the same records and leaves
/// agreeing states: the records are a function of the frames alone.
pub proof fn lemma_runs_agree(
    b1: Extractor,
    a1: Extractor,
    b2: Extractor,
    a2: Extractor,
    frames: Seq<SlicedFrame>,
    o1: Seq<FeatureRecord>,
    o2: Seq<FeatureRecord>,
)
    requires
        same_state(b1, b2),
        run_ok(b1, a1, frames, o1),
        run_ok(b2, a2, frames, o2),
    ensures
        o1 == o2,
        same_state(a1, a2),
    decreases frames.len(),
{
    if frames.len() > 0 {
        let f = frames.last();
        let (mid1, m1, v1) = choose|mid: Extractor, msgs: Seq<AppMessage>, v: Vec<FeatureRecord>|
            #[trigger] frame_outcome(mid, a1, f.layers, f.ts_sec, f.ts_usec, msgs, Ok::<Vec<FeatureRecord>, FrameError>(v))
                && v@.len() <= o1.len() && run_ok(b1, mid, frames.drop_last(), o1.subrange(0, o1.len() - v@.len()))
                && decodes_to(msgs, f.layers.payload@) && o1 == o1.subrange(0, o1.len() - v@.len()) + v@;
        let (mid2, m2, v2) = choose|mid: Extractor, msgs: Seq<AppMessage>, v: Vec<FeatureRecord>|
            #[trigger] frame_outcome(mid, a2, f.layers, f.ts_sec, f.ts_usec, msgs, Ok::<Vec<FeatureRecord>, FrameError>(v))
                && v@.len() <= o2.len() && run_ok(b2, mid, frames.drop_last(), o2.subrange(0, o2.len() - v@.len()))
                && decodes_to(msgs, f.layers.payload@) && o2 == o2.subrange(0, o2.len() - v@.len()) + v@;
        lemma_runs_agree(
            b1,
            mid1,
            b2,
            mid2,
            frames.drop_last(),
            o1.subrange(0, o1.len() - v1@.len()),
            o2.subrange(0, o2.len() - v2@.len()),
        );
        lemma_frame_outcome_agrees(mid1, a1, mid2, a2, f, m1, m2, v1, v2);
    }
}

} // verus!
