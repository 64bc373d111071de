//! Broker gateway decisions: topic and consumer lifecycle, publish
//! payloads, batch classification and bounded draining.
//!
//! The transport itself is outside this crate; every function here maps
//! plain request/response values to decisions, so the whole protocol
//! logic is verified. A response is a status and body, or nothing when
//! the transport failed.

use vstd::prelude::*;

use crate::codec::{
    build_publish_payload, decode_event, decode_event_spec, encode_event, encode_event_spec,
    extract_string_field, parse_batch, parse_batch_spec, publish_payload_spec, record_models,
    string_field_spec, RawRecord, RecordModel,
};
use crate::event::{EventModel, GameEvent};
use crate::player::clone_bytes;
use crate::str_bytes;
use crate::text::{
    contains_sub, contains_bytes, dec_digits, lower_bytes, sanitize_topic, to_lower,
    topic_safe_name, u64_to_dec, HYPHEN, UNDERSCORE,
};
use crate::txt;

verus! {

/// What the transport handed back: an HTTP status and the body bytes.
pub struct HttpReply {
    pub status: u16,
    pub body: Vec<u8>,
}

/// Mathematical image of a reply.
pub struct ReplyModel {
    pub status: u16,
    pub body: Seq<u8>,
}

impl View for HttpReply {
    type V = ReplyModel;

    open spec fn view(&self) -> ReplyModel {
        ReplyModel { status: self.status, body: self.body@ }
    }
}

/// Model of an optional reply; `None` is a transport failure.
pub open spec fn reply_model(r: Option<HttpReply>) -> Option<ReplyModel> {
    match r {
        Some(rep) => Some(rep@),
        None => None,
    }
}

pub open spec fn is_success(status: u16) -> bool {
    200 <= status < 300
}

/// Set view of a name list.
pub open spec fn set_of_names(s: Seq<Vec<u8>>) -> Set<Seq<u8>>
    decreases s.len(),
{
    if s.len() == 0 {
        Set::empty()
    } else {
        set_of_names(s.drop_last()).insert(s.last()@)
    }
}

proof fn lemma_set_of_names_contains(s: Seq<Vec<u8>>, k: Seq<u8>)
    ensures
        set_of_names(s).contains(k) <==> exists|i: int| 0 <= i < s.len() && s[i]@ == k,
    decreases s.len(),
{
    if s.len() > 0 {
        lemma_set_of_names_contains(s.drop_last(), k);
        if set_of_names(s).contains(k) {
            if s.last()@ == k {
                assert(s[s.len() - 1]@ == k);
            } else {
                let i = choose|i: int| 0 <= i < s.drop_last().len() && s.drop_last()[i]@ == k;
                assert(s[i]@ == k);
            }
        }
        if exists|i: int| 0 <= i < s.len() && s[i]@ == k {
            let i = choose|i: int| 0 <= i < s.len() && s[i]@ == k;
            if i < s.len() - 1 {
                assert(s.drop_last()[i]@ == k);
            }
        }
    }
}

/// The in-process cache of topics already known to exist, so repeat
/// `ensure_topic` calls in one execution context skip the create call.
pub struct TopicSet {
    names: Vec<Vec<u8>>,
}

impl View for TopicSet {
    type V = Set<Seq<u8>>;

    closed spec fn view(&self) -> Set<Seq<u8>> {
        set_of_names(self.names@)
    }
}

impl TopicSet {
    pub fn new() -> (t: TopicSet)
        ensures
            t@ == Set::<Seq<u8>>::empty(),
    {
        let t = TopicSet { names: Vec::new() };
        proof {
            assert(t.names@ =~= Seq::<Vec<u8>>::empty());
        }
        t
    }

    pub fn contains(&self, name: &Vec<u8>) -> (b: bool)
        ensures
            b == self@.contains(name@),
    {
        let mut i: usize = 0;
        while i < self.names.len()
            invariant
                i <= self.names@.len(),
                forall|j: int| 0 <= j < i ==> self.names@[j]@ != name@,
            decreases self.names.len() - i,
        {
            if crate::text::bytes_eq(&self.names[i], name) {
                proof {
                    lemma_set_of_names_contains(self.names@, name@);
                }
                return true;
            }
            i = i + 1;
        }
        proof {
            lemma_set_of_names_contains(self.names@, name@);
        }
        false
    }

    pub fn mark_created(&mut self, name: &Vec<u8>)
        ensures
            final(self)@ == old(self)@.insert(name@),
    {
        let ghost before = self.names@;
        self.names.push(clone_bytes(name));
        proof {
            assert(self.names@.drop_last() =~= before);
        }
    }
}

/// Whether an `ensure_topic` call must issue a create request: only when
/// the topic is not cached as already created.
pub open spec fn topic_needs_create(cache: Set<Seq<u8>>, topic: Seq<u8>) -> bool {
    !cache.contains(topic)
}

pub fn ensure_topic_needs_request(cache: &TopicSet, topic: &Vec<u8>) -> (b: bool)
    ensures
        b == topic_needs_create(cache@, topic@),
{
    !cache.contains(topic)
}

/// A create reply counts as success when the status is 2xx or 409, or
/// the body indicates the topic already exists: the phrase in any
/// casing, or the broker's `ALREADY_EXISTS` code form.
pub open spec fn create_outcome_ok(status: u16, body: Seq<u8>) -> bool {
    ||| is_success(status)
    ||| status == 409
    ||| contains_sub(lower_bytes(body), txt("already exists"@))
    ||| contains_sub(body, txt("ALREADY_EXISTS"@))
}

/// Classifies a topic- or group-creation reply.
pub fn creation_succeeded(status: u16, body: &Vec<u8>) -> (r: bool)
    ensures
        r == create_outcome_ok(status, body@),
{
    if 200 <= status && status < 300 {
        true
    } else if status == 409 {
        true
    } else {
        let lowered = to_lower(body);
        contains_bytes(&lowered, &str_bytes("already exists")) || contains_bytes(
            body,
            &str_bytes("ALREADY_EXISTS"),
        )
    }
}

/// Records a creation outcome in the cache; only success is cached.
pub fn ensure_topic_apply(cache: &mut TopicSet, topic: &Vec<u8>, ok: bool)
    ensures
        ok ==> final(cache)@ == old(cache)@.insert(topic@),
        !ok ==> final(cache)@ == old(cache)@,
{
    if ok {
        cache.mark_created(topic);
    }
}

/// Law: once a topic's creation outcome is recorded as successful, a
/// second `ensure_topic` for the same name issues no create request.
pub proof fn lemma_topic_creation_idempotent(cache: Set<Seq<u8>>, topic: Seq<u8>)
    ensures
        !topic_needs_create(cache.insert(topic), topic),
{
}

/// The consumer-group name derived from an origin tag and a topic.
pub open spec fn consumer_group_spec(origin: Seq<u8>, topic: Seq<u8>) -> Seq<u8> {
    origin + seq![UNDERSCORE] + sanitize_topic(topic) + txt("_grp"@)
}

/// Builds the consumer-group name: origin tag, the topic lower-cased
/// with underscores removed, and a fixed suffix.
pub fn consumer_group_id(origin: &Vec<u8>, topic: &Vec<u8>) -> (r: Vec<u8>)
    ensures
        r@ == consumer_group_spec(origin@, topic@),
{
    let mut out = clone_bytes(origin);
    crate::codec::push_byte(&mut out, UNDERSCORE);
    let mut safe = topic_safe_name(topic);
    out.append(&mut safe);
    crate::codec::push_lit(&mut out, "_grp");
    proof {
        assert(out@ =~= consumer_group_spec(origin@, topic@));
    }
    out
}

/// The record key a publish uses: origin tag and millisecond timestamp.
pub open spec fn publish_key_spec(origin: Seq<u8>, ts: u64) -> Seq<u8> {
    origin + seq![HYPHEN] + dec_digits(ts as nat)
}

/// Builds the record key for a publish.
pub fn publish_key(origin: &Vec<u8>, ts: u64) -> (r: Vec<u8>)
    ensures
        r@ == publish_key_spec(origin@, ts),
{
    let mut out = clone_bytes(origin);
    crate::codec::push_byte(&mut out, HYPHEN);
    let mut d = u64_to_dec(ts);
    out.append(&mut d);
    proof {
        assert(out@ =~= publish_key_spec(origin@, ts));
    }
    out
}

/// Serializes an event and wraps it in the publish envelope: the value
/// field is the encoded document as a string, never a nested object.
pub fn publish_event_payload(e: &GameEvent, origin: &Vec<u8>, ts: u64) -> (r: Vec<u8>)
    ensures
        r@ == publish_payload_spec(publish_key_spec(origin@, ts), encode_event_spec(e@)),
{
    let key = publish_key(origin, ts);
    let value = encode_event(e);
    build_publish_payload(&key, &value)
}

/// The consumer-instance id taken from a creation reply, or the
/// sentinel that lets consumption proceed and fail soft.
pub fn unknown_instance() -> (r: Vec<u8>)
    ensures
        r@ == txt("unknown_instance"@),
{
    str_bytes("unknown_instance")
}

/// Reads the `instance_id` out of a consumer-creation reply; any
/// failure degrades to the sentinel id.
pub fn parse_instance_id(reply: &Option<HttpReply>) -> (r: Vec<u8>)
    ensures
        match reply {
            Some(rep) => {
                if is_success(rep.status) && string_field_spec(rep.body@, "instance_id"@)
                    is Some {
                    r@ == string_field_spec(rep.body@, "instance_id"@)->Some_0
                } else {
                    r@ == txt("unknown_instance"@)
                }
            },
            None => r@ == txt("unknown_instance"@),
        },
{
    match reply {
        Some(rep) => {
            if 200 <= rep.status && rep.status < 300 {
                match extract_string_field(&rep.body, "instance_id") {
                    Some(id) => id,
                    None => unknown_instance(),
                }
            } else {
                unknown_instance()
            }
        },
        None => unknown_instance(),
    }
}

/// One consumed item: a record with its re-decoded event, or one of the
/// two markers that stand for "nothing new" and "something went wrong".
pub enum ConsumedRecord {
    Real { record: RawRecord, event: Option<GameEvent> },
    ErrorMarker,
    NoMessages,
}

/// Mathematical image of a consumed item.
pub enum ConsumedModel {
    Real { record: RecordModel, event: Option<EventModel> },
    ErrorMarker,
    NoMessages,
}

impl View for ConsumedRecord {
    type V = ConsumedModel;

    open spec fn view(&self) -> ConsumedModel {
        match self {
            ConsumedRecord::Real { record, event } => ConsumedModel::Real {
                record: record@,
                event: match event {
                    Some(e) => Some(e@),
                    None => None,
                },
            },
            ConsumedRecord::ErrorMarker => ConsumedModel::ErrorMarker,
            ConsumedRecord::NoMessages => ConsumedModel::NoMessages,
        }
    }
}

/// Models of a consumed batch, in order.
pub open spec fn consumed_models(s: Seq<ConsumedRecord>) -> Seq<ConsumedModel> {
    s.map_values(|c: ConsumedRecord| c@)
}

/// A record is real when it is neither marker.
pub open spec fn is_real_model(c: ConsumedModel) -> bool {
    match c {
        ConsumedModel::Real { .. } => true,
        _ => false,
    }
}

/// The real items a parsed batch yields: each record paired with the
/// event its value decodes to, if any.
pub open spec fn real_records(rs: Seq<RecordModel>) -> Seq<ConsumedModel> {
    rs.map_values(
        |r: RecordModel| ConsumedModel::Real { record: r, event: decode_event_spec(r.value) },
    )
}

/// What one fetch yields: real records on a parsable success, a
/// no-messages marker on an empty body, and an error marker on
/// transport failure, a non-success status or an unparsable body.
pub open spec fn classify_batch_spec(reply: Option<ReplyModel>) -> Seq<ConsumedModel> {
    match reply {
        None => seq![ConsumedModel::ErrorMarker],
        Some(rep) => if !is_success(rep.status) {
            seq![ConsumedModel::ErrorMarker]
        } else if rep.body.len() == 0 || rep.body == txt("[]"@) {
            seq![ConsumedModel::NoMessages]
        } else {
            match parse_batch_spec(rep.body) {
                None => seq![ConsumedModel::ErrorMarker],
                Some(records) => real_records(records),
            }
        },
    }
}

/// Classifies one consume reply, re-decoding each record's value.
pub fn classify_batch(reply: Option<HttpReply>) -> (r: Vec<ConsumedRecord>)
    ensures
        consumed_models(r@) == classify_batch_spec(reply_model(reply)),
{
    let rep = match reply {
        None => {
            let mut v: Vec<ConsumedRecord> = Vec::new();
            v.push(ConsumedRecord::ErrorMarker);
            proof {
                assert(consumed_models(v@) =~= seq![ConsumedModel::ErrorMarker]);
            }
            return v;
        },
        Some(rep) => rep,
    };
    if !(200 <= rep.status && rep.status < 300) {
        let mut v: Vec<ConsumedRecord> = Vec::new();
        v.push(ConsumedRecord::ErrorMarker);
        proof {
            assert(consumed_models(v@) =~= seq![ConsumedModel::ErrorMarker]);
        }
        return v;
    }
    if rep.body.len() == 0 || crate::text::bytes_eq(&rep.body, &str_bytes("[]")) {
        let mut v: Vec<ConsumedRecord> = Vec::new();
        v.push(ConsumedRecord::NoMessages);
        proof {
            assert(consumed_models(v@) =~= seq![ConsumedModel::NoMessages]);
        }
        return v;
    }
    let records = match parse_batch(&rep.body) {
        None => {
            let mut v: Vec<ConsumedRecord> = Vec::new();
            v.push(ConsumedRecord::ErrorMarker);
            proof {
                assert(consumed_models(v@) =~= seq![ConsumedModel::ErrorMarker]);
            }
            return v;
        },
        Some(records) => records,
    };
    let ghost rs = record_models(records@);
    let mut out: Vec<ConsumedRecord> = Vec::new();
    let mut rest = records;
    proof {
        assert(consumed_models(out@) =~= real_records(rs.take(0)));
    }
    while rest.len() > 0
        invariant
            rest@.len() <= rs.len(),
            record_models(rest@) == rs.skip(rs.len() - rest@.len()),
            consumed_models(out@) == real_records(rs.take(rs.len() - rest@.len())),
        decreases rest.len(),
    {
        let ghost k = rs.len() - rest@.len();
        let rec = rest.remove(0);
        proof {
            assert(rec@ == record_models(rest@.insert(0, rec))[0]);
            assert(rs.skip(k)[0] == rs[k]);
            assert(rec@ == rs[k]);
            assert(record_models(rest@) =~= rs.skip(k).drop_first());
            assert(rs.skip(k).drop_first() =~= rs.skip(k + 1));
        }
        let ghost out0 = out@;
        let ev = decode_event(&rec.value);
        out.push(ConsumedRecord::Real { record: rec, event: ev });
        proof {
            assert(rs.take(k + 1).drop_last() =~= rs.take(k));
            assert(consumed_models(out@) =~= real_records(rs.take(k + 1))) by {
                assert(consumed_models(out@) =~= consumed_models(out0).push(
                    ConsumedModel::Real { record: rs[k], event: decode_event_spec(rs[k].value) },
                ));
                assert(real_records(rs.take(k + 1)) =~= real_records(rs.take(k)).push(
                    ConsumedModel::Real { record: rs[k], event: decode_event_spec(rs[k].value) },
                ));
            }
        }
    }
    proof {
        assert(rs.take(rs.len() as int) =~= rs);
    }
    out
}

/// A batch counts as real when some item is a record, not a marker.
pub open spec fn has_real(batch: Seq<ConsumedModel>) -> bool {
    exists|i: int| 0 <= i < batch.len() && is_real_model(batch[i])
}

/// Judges whether a batch carried any real record.
pub fn batch_has_real(batch: &Vec<ConsumedRecord>) -> (b: bool)
    ensures
        b == has_real(consumed_models(batch@)),
{
    let mut i: usize = 0;
    while i < batch.len()
        invariant
            i <= batch@.len(),
            forall|j: int| 0 <= j < i ==> !is_real_model(consumed_models(batch@)[j]),
        decreases batch.len() - i,
    {
        let found: bool = match &batch[i] {
            ConsumedRecord::Real { .. } => true,
            _ => false,
        };
        if found {
            proof {
                assert(is_real_model(consumed_models(batch@)[i as int]));
            }
            return true;
        }
        i = i + 1;
    }
    false
}

/// The most batches one drain may fetch, bounding work against a
/// misbehaving or infinitely productive endpoint.
pub const MAX_DRAIN_BATCHES: usize = 10;

/// What a drain collects from a run of batch results under a budget:
/// it stops at the first batch with no real record, or when the budget
/// is spent, and reports how many batches it kept.
pub open spec fn drain_spec(batches: Seq<Seq<ConsumedModel>>, budget: nat) -> (
    Seq<ConsumedModel>,
    nat,
)
    decreases batches.len(),
{
    if budget == 0 || batches.len() == 0 {
        (Seq::empty(), 0nat)
    } else if !has_real(batches[0]) {
        (Seq::empty(), 0nat)
    } else {
        let rest = drain_spec(batches.drop_first(), (budget - 1) as nat);
        (batches[0] + rest.0, rest.1 + 1)
    }
}

/// Models of a run of batches.
pub open spec fn batch_models(s: Seq<Vec<ConsumedRecord>>) -> Seq<Seq<ConsumedModel>> {
    s.map_values(|v: Vec<ConsumedRecord>| consumed_models(v@))
}

/// Law: when every batch carries a real record, drain stops after
/// exactly the budgeted number of batches.
pub proof fn lemma_drain_bound(batches: Seq<Seq<ConsumedModel>>, budget: nat)
    requires
        batches.len() >= budget,
        forall|i: int| 0 <= i < batches.len() ==> has_real(#[trigger] batches[i]),
    ensures
        drain_spec(batches, budget).1 == budget,
    decreases budget,
{
    if budget > 0 {
        assert(has_real(batches[0]));
        lemma_drain_bound(batches.drop_first(), (budget - 1) as nat);
    }
}

/// Runs a drain over already-fetched batch results; the incremental
/// `DrainState` drives the same rules against a live transport.
pub fn drain_collect(batches: Vec<Vec<ConsumedRecord>>, budget: usize) -> (r: (
    Vec<ConsumedRecord>,
    usize,
))
    ensures
        consumed_models(r.0@) == drain_spec(batch_models(batches@), budget as nat).0,
        r.1 == drain_spec(batch_models(batches@), budget as nat).1,
    decreases batches@.len(),
{
    let ghost bs = batch_models(batches@);
    if budget == 0 || batches.len() == 0 {
        let v: Vec<ConsumedRecord> = Vec::new();
        proof {
            assert(consumed_models(v@) =~= Seq::<ConsumedModel>::empty());
        }
        return (v, 0);
    }
    let mut rest = batches;
    let first = rest.remove(0);
    proof {
        assert(bs[0] == consumed_models(first@));
        assert(batch_models(rest@) =~= bs.drop_first());
    }
    if !batch_has_real(&first) {
        let v: Vec<ConsumedRecord> = Vec::new();
        proof {
            assert(consumed_models(v@) =~= Seq::<ConsumedModel>::empty());
        }
        return (v, 0);
    }
    let (tail, n) = drain_collect(rest, budget - 1);
    let ghost tail0 = tail@;
    let mut out = first;
    let mut tail = tail;
    out.append(&mut tail);
    proof {
        assert(consumed_models(out@) =~= consumed_models(out@.take(out@.len() - tail0.len()))
            + consumed_models(tail0)) by {
            assert(out@.take(out@.len() - tail0.len()) =~= out@.subrange(
                0,
                out@.len() - tail0.len(),
            ));
            assert(consumed_models(out@) =~= consumed_models(out@.take(
                out@.len() - tail0.len(),
            )) + consumed_models(tail0));
        }
        assert(out@.take(out@.len() - tail0.len()) =~= first@);
    }
    proof {
        lemma_drain_count_le(batch_models(rest@), (budget - 1) as nat);
    }
    (out, n + 1)
}

/// A drain never keeps more batches than its budget.
pub proof fn lemma_drain_count_le(batches: Seq<Seq<ConsumedModel>>, budget: nat)
    ensures
        drain_spec(batches, budget).1 <= budget,
    decreases batches.len(),
{
    if budget != 0 && batches.len() != 0 && has_real(batches[0]) {
        lemma_drain_count_le(batches.drop_first(), (budget - 1) as nat);
    }
}

/// Incremental drain: the caller fetches one batch at a time and feeds
/// it in until told to stop.
pub struct DrainState {
    pub collected: Vec<ConsumedRecord>,
    pub batches: usize,
}

impl DrainState {
    pub fn new() -> (d: DrainState)
        ensures
            d.collected@ == Seq::<ConsumedRecord>::empty(),
            d.batches == 0,
    {
        let d = DrainState { collected: Vec::new(), batches: 0 };
        proof {
            assert(d.collected@ =~= Seq::<ConsumedRecord>::empty());
        }
        d
    }

    /// Whether another batch may still be fetched.
    pub fn should_fetch(&self) -> (b: bool)
        ensures
            b == (self.batches < MAX_DRAIN_BATCHES),
    {
        self.batches < MAX_DRAIN_BATCHES
    }

    /// Feeds one fetched batch in. A batch with no real record stops
    /// the drain and is dropped; a real batch is collected, and the
    /// drain goes on while the batch bound is not yet reached.
    pub fn step(&mut self, batch: Vec<ConsumedRecord>) -> (cont: bool)
        requires
            old(self).batches < MAX_DRAIN_BATCHES,
        ensures
            has_real(consumed_models(batch@)) ==> {
                &&& final(self).collected@ == old(self).collected@ + batch@
                &&& final(self).batches == old(self).batches + 1
                &&& cont == (final(self).batches < MAX_DRAIN_BATCHES)
            },
            !has_real(consumed_models(batch@)) ==> {
                &&& final(self).collected@ == old(self).collected@
                &&& final(self).batches == old(self).batches
                &&& !cont
            },
    {
        if !batch_has_real(&batch) {
            return false;
        }
        let mut batch = batch;
        self.collected.append(&mut batch);
        self.batches = self.batches + 1;
        self.batches < MAX_DRAIN_BATCHES
    }
}

} // verus!
