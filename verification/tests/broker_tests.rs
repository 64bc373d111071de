use wasicycles::broker::{
    batch_has_real, classify_batch, consumer_group_id, creation_succeeded, drain_collect,
    ensure_topic_apply, ensure_topic_needs_request, parse_instance_id, publish_event_payload,
    publish_key, ConsumedRecord, DrainState, HttpReply, TopicSet, MAX_DRAIN_BATCHES,
};
use wasicycles::codec::{encode_event, RawRecord};
use wasicycles::event::{EventKind, GameEvent};

fn test_event(ts: u64) -> GameEvent {
    GameEvent {
        kind: EventKind::ConnectivityTest,
        player_id: b"probe".to_vec(),
        game_id: b"connectivity-test".to_vec(),
        runtime: b"wasmedge".to_vec(),
        castle: b"Quantum Nexus".to_vec(),
        timestamp: ts,
        position: None,
        direction: None,
        score: Some(42),
    }
}

fn real_batch(n: usize) -> Vec<ConsumedRecord> {
    let mut out = Vec::new();
    for i in 0..n {
        out.push(ConsumedRecord::Real {
            record: RawRecord {
                topic: b"T".to_vec(),
                partition: 0,
                offset: i as u64,
                timestamp: i as u64,
                key: b"k".to_vec(),
                value: b"v".to_vec(),
            },
            event: None,
        });
    }
    out
}

#[test]
fn ensure_topic_skips_the_second_create() {
    let mut cache = TopicSet::new();
    let topic = b"GAME".to_vec();
    // First call: the create request goes out and succeeds.
    assert!(ensure_topic_needs_request(&cache, &topic));
    ensure_topic_apply(&mut cache, &topic, true);
    // Second call: the cached outcome suppresses the request entirely.
    assert!(!ensure_topic_needs_request(&cache, &topic));
    // Another topic still needs its own create.
    assert!(ensure_topic_needs_request(&cache, &b"OTHER".to_vec()));
}

#[test]
fn failed_creation_is_not_cached() {
    let mut cache = TopicSet::new();
    let topic = b"GAME".to_vec();
    ensure_topic_apply(&mut cache, &topic, false);
    assert!(ensure_topic_needs_request(&cache, &topic));
}

#[test]
fn creation_outcomes() {
    assert!(creation_succeeded(200, &Vec::new()));
    assert!(creation_succeeded(409, &Vec::new()));
    assert!(creation_succeeded(
        400,
        &b"Topic GAME ALREADY EXISTS in cluster".to_vec()
    ));
    assert!(creation_succeeded(400, &b"topic already exists".to_vec()));
    assert!(!creation_succeeded(400, &b"bad request".to_vec()));
    assert!(!creation_succeeded(500, &b"server error".to_vec()));
}

#[test]
fn creation_accepts_the_already_exists_code_form() {
    // The broker may answer with the code form rather than the phrase.
    assert!(creation_succeeded(
        400,
        &b"ORA error: ALREADY_EXISTS for topic GAME".to_vec()
    ));
    assert!(!creation_succeeded(400, &b"already_exists".to_vec()));
}

#[test]
fn consumer_group_name_is_sanitized() {
    let g = consumer_group_id(&b"wasmtime".to_vec(), &b"TEST_KAFKA_TOPIC_NEW".to_vec());
    assert_eq!(g, b"wasmtime_testkafkatopicnew_grp".to_vec());
}

#[test]
fn publish_key_combines_origin_and_timestamp() {
    assert_eq!(publish_key(&b"wasmedge".to_vec(), 12345), b"wasmedge-12345".to_vec());
}

#[test]
fn publish_payload_wraps_the_encoded_event() {
    let e = test_event(7);
    let payload = publish_event_payload(&e, &b"wasmedge".to_vec(), 7);
    let v: serde_json::Value = serde_json::from_slice(&payload).expect("valid JSON");
    assert_eq!(v["records"][0]["key"].as_str(), Some("wasmedge-7"));
    let value = v["records"][0]["value"].as_str().expect("string value");
    assert_eq!(value.as_bytes(), encode_event(&e).as_slice());
}

#[test]
fn instance_id_comes_from_a_good_reply() {
    let reply = Some(HttpReply {
        status: 200,
        body: b"{\"instance_id\":\"inst-9\"}".to_vec(),
    });
    assert_eq!(parse_instance_id(&reply), b"inst-9".to_vec());
}

#[test]
fn instance_id_degrades_to_the_sentinel() {
    assert_eq!(parse_instance_id(&None), b"unknown_instance".to_vec());
    let bad_status = Some(HttpReply { status: 500, body: Vec::new() });
    assert_eq!(parse_instance_id(&bad_status), b"unknown_instance".to_vec());
    let bad_body = Some(HttpReply { status: 200, body: b"not json".to_vec() });
    assert_eq!(parse_instance_id(&bad_body), b"unknown_instance".to_vec());
}

#[test]
fn consume_classification_on_transport_failure() {
    let batch = classify_batch(None);
    assert_eq!(batch.len(), 1);
    assert!(matches!(batch[0], ConsumedRecord::ErrorMarker));
    assert!(!batch_has_real(&batch));
}

#[test]
fn consume_classification_on_error_status() {
    let batch = classify_batch(Some(HttpReply { status: 503, body: b"[]".to_vec() }));
    assert_eq!(batch.len(), 1);
    assert!(matches!(batch[0], ConsumedRecord::ErrorMarker));
}

#[test]
fn consume_classification_on_empty_body() {
    let batch = classify_batch(Some(HttpReply { status: 200, body: b"[]".to_vec() }));
    assert_eq!(batch.len(), 1);
    assert!(matches!(batch[0], ConsumedRecord::NoMessages));
    let batch2 = classify_batch(Some(HttpReply { status: 200, body: Vec::new() }));
    assert!(matches!(batch2[0], ConsumedRecord::NoMessages));
}

#[test]
fn consume_classification_on_unparsable_body() {
    let batch = classify_batch(Some(HttpReply { status: 200, body: b"<html>".to_vec() }));
    assert_eq!(batch.len(), 1);
    assert!(matches!(batch[0], ConsumedRecord::ErrorMarker));
}

#[test]
fn consume_classification_decodes_record_values() {
    let e = test_event(5);
    let value = String::from_utf8(encode_event(&e))
        .unwrap()
        .replace('\\', "\\\\")
        .replace('"', "\\\"");
    let body = format!(
        "[{{\"topic\":\"T\",\"partition\":0,\"offset\":1,\"timestamp\":5,\"key\":\"k\",\"value\":\"{}\"}}]",
        value
    );
    let batch = classify_batch(Some(HttpReply { status: 200, body: body.into_bytes() }));
    assert_eq!(batch.len(), 1);
    match &batch[0] {
        ConsumedRecord::Real { record, event } => {
            assert_eq!(record.offset, 1);
            let ev = event.as_ref().expect("value decodes back to the event");
            assert_eq!(ev.kind, EventKind::ConnectivityTest);
            assert_eq!(ev.timestamp, 5);
        }
        _ => panic!("a parsed batch yields real records"),
    }
    assert!(batch_has_real(&batch));
}

#[test]
fn drain_stops_at_the_batch_bound_when_everything_is_real() {
    let mut batches = Vec::new();
    for _ in 0..(MAX_DRAIN_BATCHES + 5) {
        batches.push(real_batch(2));
    }
    let (collected, count) = drain_collect(batches, MAX_DRAIN_BATCHES);
    assert_eq!(count, MAX_DRAIN_BATCHES);
    assert_eq!(collected.len(), 2 * MAX_DRAIN_BATCHES);
}

#[test]
fn drain_stops_at_the_first_unreal_batch() {
    let mut batches = Vec::new();
    batches.push(real_batch(1));
    batches.push(vec![ConsumedRecord::NoMessages]);
    batches.push(real_batch(1));
    let (collected, count) = drain_collect(batches, MAX_DRAIN_BATCHES);
    assert_eq!(count, 1);
    assert_eq!(collected.len(), 1);
}

#[test]
fn incremental_drain_respects_the_bound() {
    let mut d = DrainState::new();
    let mut fetches: usize = 0;
    while d.should_fetch() {
        fetches += 1;
        let cont = d.step(real_batch(1));
        if !cont {
            break;
        }
    }
    assert_eq!(fetches, MAX_DRAIN_BATCHES);
    assert_eq!(d.batches, MAX_DRAIN_BATCHES);
    assert_eq!(d.collected.len(), MAX_DRAIN_BATCHES);
}

#[test]
fn incremental_drain_stops_on_markers() {
    let mut d = DrainState::new();
    assert!(d.step(real_batch(1)));
    let cont = d.step(vec![ConsumedRecord::ErrorMarker]);
    assert!(!cont);
    assert_eq!(d.batches, 1);
    assert_eq!(d.collected.len(), 1);
}
