use wasicycles::codec::{
    build_backup_payload, build_group_payload, build_publish_payload, build_topic_payload,
    decode_event, decode_state, encode_event, encode_state, extract_string_field, parse_batch,
};
use wasicycles::event::{EventKind, GameEvent, Position};
use wasicycles::player::{Direction, Player, PlayerMap};

fn sample_event() -> GameEvent {
    GameEvent {
        kind: EventKind::Joined,
        player_id: b"P".to_vec(),
        game_id: b"g".to_vec(),
        runtime: b"r".to_vec(),
        castle: b"c".to_vec(),
        timestamp: 5,
        position: Some(Position { x: 1, y: 2 }),
        direction: Some(Direction::Up),
        score: Some(7),
    }
}

#[test]
fn event_encoding_is_the_expected_document() {
    let bytes = encode_event(&sample_event());
    let expected = "{\"type\":\"player_joined\",\"player_id\":\"P\",\"game_id\":\"g\",\"runtime\":\"r\",\"castle\":\"c\",\"timestamp\":5,\"position\":{\"x\":1,\"y\":2},\"direction\":\"up\",\"score\":7}";
    assert_eq!(String::from_utf8(bytes).unwrap(), expected);
}

#[test]
fn event_encoding_with_absent_options_uses_null() {
    let e = GameEvent {
        kind: EventKind::Left,
        player_id: b"P".to_vec(),
        game_id: b"g".to_vec(),
        runtime: b"r".to_vec(),
        castle: b"c".to_vec(),
        timestamp: 9,
        position: None,
        direction: None,
        score: None,
    };
    let bytes = encode_event(&e);
    let expected = "{\"type\":\"player_left\",\"player_id\":\"P\",\"game_id\":\"g\",\"runtime\":\"r\",\"castle\":\"c\",\"timestamp\":9,\"position\":null,\"direction\":null,\"score\":null}";
    assert_eq!(String::from_utf8(bytes).unwrap(), expected);
}

#[test]
fn event_round_trip() {
    let e = sample_event();
    let bytes = encode_event(&e);
    let back = decode_event(&bytes).expect("canonical document must decode");
    assert_eq!(back.kind, EventKind::Joined);
    assert_eq!(back.player_id, e.player_id);
    assert_eq!(back.game_id, e.game_id);
    assert_eq!(back.runtime, e.runtime);
    assert_eq!(back.castle, e.castle);
    assert_eq!(back.timestamp, e.timestamp);
    assert_eq!(back.position, e.position);
    assert_eq!(back.direction, e.direction);
    assert_eq!(back.score, e.score);
}

#[test]
fn event_round_trip_with_escaped_id() {
    let mut e = sample_event();
    e.player_id = b"a\"b\\c".to_vec();
    let bytes = encode_event(&e);
    let back = decode_event(&bytes).expect("escaped ids must survive");
    assert_eq!(back.player_id, b"a\"b\\c".to_vec());
}

#[test]
fn control_bytes_are_escaped_and_round_trip() {
    let mut e = sample_event();
    e.player_id = b"a\nb\x01c".to_vec();
    let bytes = encode_event(&e);
    let text = String::from_utf8(bytes.clone()).unwrap();
    assert!(text.contains("a\\u000ab\\u0001c"));
    let back = decode_event(&bytes).expect("escaped control bytes must survive");
    assert_eq!(back.player_id, b"a\nb\x01c".to_vec());
    let v: serde_json::Value = serde_json::from_slice(&bytes).expect("valid JSON");
    assert_eq!(v.get("player_id").and_then(|p| p.as_str()), Some("a\nb\u{1}c"));
}

#[test]
fn state_decoding_rejects_positions_outside_the_arena() {
    let body = "{\"p\":{\"id\":\"p\",\"x\":1000,\"y\":2,\"direction\":\"up\",\"score\":0,\"color\":\"#c\",\"alive\":true}}";
    assert!(decode_state(&body.as_bytes().to_vec()).is_none());
}

#[test]
fn event_encoding_is_valid_json_to_serde() {
    let bytes = encode_event(&sample_event());
    let v: serde_json::Value = serde_json::from_slice(&bytes).expect("valid JSON");
    assert_eq!(v.get("type").and_then(|t| t.as_str()), Some("player_joined"));
    assert_eq!(v.get("timestamp").and_then(|t| t.as_u64()), Some(5));
    assert_eq!(
        v.get("position").and_then(|p| p.get("x")).and_then(|x| x.as_u64()),
        Some(1)
    );
    assert_eq!(v.get("score").and_then(|s| s.as_u64()), Some(7));
}

#[test]
fn decode_rejects_unknown_kind() {
    let body = "{\"type\":\"player_warped\",\"player_id\":\"P\",\"game_id\":\"g\",\"runtime\":\"r\",\"castle\":\"c\",\"timestamp\":5,\"position\":null,\"direction\":null,\"score\":null}";
    assert!(decode_event(&body.as_bytes().to_vec()).is_none());
}

#[test]
fn decode_rejects_trailing_bytes() {
    let mut bytes = encode_event(&sample_event());
    bytes.push(b' ');
    assert!(decode_event(&bytes).is_none());
}

#[test]
fn decode_rejects_oversized_timestamp() {
    let body = "{\"type\":\"player_left\",\"player_id\":\"P\",\"game_id\":\"g\",\"runtime\":\"r\",\"castle\":\"c\",\"timestamp\":99999999999999999999999999,\"position\":null,\"direction\":null,\"score\":null}";
    assert!(decode_event(&body.as_bytes().to_vec()).is_none());
}

#[test]
fn state_round_trip_keeps_players() {
    let mut m = PlayerMap::new();
    m.insert(Player {
        id: b"alice".to_vec(),
        x: 3,
        y: 4,
        direction: Direction::Left,
        score: 12,
        color: b"#06b6d4".to_vec(),
        alive: true,
    });
    m.insert(Player {
        id: b"bob".to_vec(),
        x: 0,
        y: 49,
        direction: Direction::Down,
        score: 0,
        color: b"#9333ea".to_vec(),
        alive: true,
    });
    let blob = encode_state(&m);
    let back = decode_state(&blob).expect("canonical blob must decode");
    assert_eq!(back.len(), 2);
    let alice = back.get(&b"alice".to_vec()).expect("alice survives");
    assert_eq!(alice.x, 3);
    assert_eq!(alice.y, 4);
    assert_eq!(alice.direction, Direction::Left);
    assert_eq!(alice.score, 12);
    let bob = back.get(&b"bob".to_vec()).expect("bob survives");
    assert_eq!(bob.y, 49);
}

#[test]
fn empty_state_is_a_pair_of_braces() {
    let m = PlayerMap::new();
    let blob = encode_state(&m);
    assert_eq!(blob, b"{}".to_vec());
    let back = decode_state(&blob).expect("{} decodes");
    assert!(back.is_empty());
}

#[test]
fn state_blob_is_valid_json_to_serde() {
    let mut m = PlayerMap::new();
    m.insert(Player {
        id: b"p1".to_vec(),
        x: 25,
        y: 25,
        direction: Direction::Up,
        score: 1,
        color: b"#06b6d4".to_vec(),
        alive: true,
    });
    let blob = encode_state(&m);
    let v: serde_json::Value = serde_json::from_slice(&blob).expect("valid JSON");
    assert_eq!(
        v.get("p1").and_then(|p| p.get("score")).and_then(|s| s.as_u64()),
        Some(1)
    );
    assert_eq!(
        v.get("p1").and_then(|p| p.get("alive")).and_then(|a| a.as_bool()),
        Some(true)
    );
}

#[test]
fn publish_payload_embeds_value_as_string() {
    let payload = build_publish_payload(&b"k1".to_vec(), &b"{\"a\":1}".to_vec());
    let expected = "{\"records\":[{\"key\":\"k1\",\"value\":\"{\\\"a\\\":1}\"}]}";
    assert_eq!(String::from_utf8(payload.clone()).unwrap(), expected);
    let v: serde_json::Value = serde_json::from_slice(&payload).expect("valid JSON");
    let value = v["records"][0]["value"]
        .as_str()
        .expect("value must be a string, not a nested object");
    assert_eq!(value, "{\"a\":1}");
}

#[test]
fn backup_payload_has_the_expected_shape() {
    let payload = build_backup_payload(
        &b"wasmtime_game_state".to_vec(),
        &b"{}".to_vec(),
        &b"wasmtime".to_vec(),
        77,
    );
    let v: serde_json::Value = serde_json::from_slice(&payload).expect("valid JSON");
    assert_eq!(v["state_key"].as_str(), Some("wasmtime_game_state"));
    assert_eq!(v["state_data"].as_str(), Some("{}"));
    assert_eq!(v["runtime"].as_str(), Some("wasmtime"));
    assert_eq!(v["timestamp"].as_u64(), Some(77));
}

#[test]
fn topic_and_group_payloads() {
    let t = build_topic_payload(&b"GAME".to_vec());
    assert_eq!(
        String::from_utf8(t).unwrap(),
        "{\"topic_name\":\"GAME\",\"partitions_count\":\"1\"}"
    );
    let g = build_group_payload(&b"GAME".to_vec());
    assert_eq!(String::from_utf8(g).unwrap(), "{\"topic_name\":\"GAME\"}");
}

#[test]
fn batch_parsing_reads_records() {
    let body = "[{\"topic\":\"T\",\"partition\":0,\"offset\":1,\"timestamp\":5,\"key\":\"k\",\"value\":\"hello\"},{\"topic\":\"T\",\"partition\":0,\"offset\":2,\"timestamp\":6,\"key\":\"k2\",\"value\":\"bye\"}]";
    let records = parse_batch(&body.as_bytes().to_vec()).expect("batch parses");
    assert_eq!(records.len(), 2);
    assert_eq!(records[0].offset, 1);
    assert_eq!(records[0].value, b"hello".to_vec());
    assert_eq!(records[1].timestamp, 6);
    assert_eq!(records[1].key, b"k2".to_vec());
}

#[test]
fn batch_parsing_of_empty_array() {
    let records = parse_batch(&b"[]".to_vec()).expect("[] parses");
    assert_eq!(records.len(), 0);
}

#[test]
fn batch_parsing_rejects_garbage() {
    assert!(parse_batch(&b"not json".to_vec()).is_none());
    assert!(parse_batch(&b"[{\"topic\":1}]".to_vec()).is_none());
}

#[test]
fn string_field_extraction_resolves_escapes() {
    let body = b"{\"instance_id\":\"abc\",\"other\":1}".to_vec();
    assert_eq!(
        extract_string_field(&body, "instance_id"),
        Some(b"abc".to_vec())
    );
    let escaped = b"{\"state_data\":\"{\\\"a\\\":1}\"}".to_vec();
    assert_eq!(
        extract_string_field(&escaped, "state_data"),
        Some(b"{\"a\":1}".to_vec())
    );
    assert_eq!(extract_string_field(&body, "missing"), None);
}
