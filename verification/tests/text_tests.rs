use wasicycles::commands::{apply_join, apply_move};
use wasicycles::config::{
    backup_load_url, backup_save_url, consume_records_url, consumer_group_url,
    consumer_instance_url, get_oracle_base_url, get_oracle_config, get_ords_url,
    get_txeventq_base_url, publish_url, recon_records_url, topic_create_url,
};
use wasicycles::player::{Direction, Player, PlayerMap};
use wasicycles::text::{base64_encode, extract_json_field, parse_u64, topic_safe_name, u64_to_dec};

#[test]
fn base64_known_vectors() {
    assert_eq!(base64_encode(&b"".to_vec()), b"".to_vec());
    assert_eq!(base64_encode(&b"f".to_vec()), b"Zg==".to_vec());
    assert_eq!(base64_encode(&b"fo".to_vec()), b"Zm8=".to_vec());
    assert_eq!(base64_encode(&b"foo".to_vec()), b"Zm9v".to_vec());
    assert_eq!(base64_encode(&b"foob".to_vec()), b"Zm9vYg==".to_vec());
    assert_eq!(base64_encode(&b"fooba".to_vec()), b"Zm9vYmE=".to_vec());
    assert_eq!(base64_encode(&b"foobar".to_vec()), b"Zm9vYmFy".to_vec());
    assert_eq!(
        base64_encode(&b"ADMIN:mypassword".to_vec()),
        b"QURNSU46bXlwYXNzd29yZA==".to_vec()
    );
}

#[test]
fn decimal_rendering_and_parsing() {
    assert_eq!(u64_to_dec(0), b"0".to_vec());
    assert_eq!(u64_to_dec(42), b"42".to_vec());
    assert_eq!(u64_to_dec(u64::MAX), b"18446744073709551615".to_vec());
    assert_eq!(parse_u64(&b"42,".to_vec(), 0), Some((42, 2)));
    assert_eq!(parse_u64(&b"0".to_vec(), 0), Some((0, 1)));
    assert_eq!(parse_u64(&b"18446744073709551615".to_vec(), 0), Some((u64::MAX, 20)));
    assert_eq!(parse_u64(&b"18446744073709551616".to_vec(), 0), None);
    assert_eq!(parse_u64(&b"x1".to_vec(), 0), None);
}

#[test]
fn topic_sanitizing() {
    assert_eq!(topic_safe_name(&b"TEST_KAFKA_TOPIC_NEW".to_vec()), b"testkafkatopicnew".to_vec());
    assert_eq!(topic_safe_name(&b"plain".to_vec()), b"plain".to_vec());
}

#[test]
fn json_field_scanning() {
    let body = b"{\"player_id\": \"p1\", \"score\": 17}".to_vec();
    assert_eq!(extract_json_field(&body, &b"player_id".to_vec()), Some(b"p1".to_vec()));
    assert_eq!(extract_json_field(&body, &b"score".to_vec()), Some(b"17".to_vec()));
    assert_eq!(extract_json_field(&body, &b"missing".to_vec()), None);
}

#[test]
fn url_builders_match_the_endpoint_layout() {
    let host = b"db.example.com".to_vec();
    let db = b"MYDATABASE".to_vec();
    assert_eq!(
        get_oracle_base_url(&host),
        b"https://db.example.com/ords/admin".to_vec()
    );
    assert_eq!(
        get_ords_url(&host),
        b"https://db.example.com/ords/admin/_sdw".to_vec()
    );
    let base = String::from_utf8(get_txeventq_base_url(&host)).unwrap();
    assert_eq!(
        base,
        "https://db.example.com/ords/admin/_/db-api/stable/database/txeventq"
    );
    assert_eq!(
        String::from_utf8(topic_create_url(&host, &db)).unwrap(),
        format!("{}/clusters/MYDATABASE/topics", base)
    );
    assert_eq!(
        String::from_utf8(publish_url(&host, &b"GAME".to_vec())).unwrap(),
        format!("{}/topics/GAME", base)
    );
    assert_eq!(
        String::from_utf8(consumer_group_url(&host, &db, &b"grp".to_vec())).unwrap(),
        format!("{}/clusters/MYDATABASE/consumer-groups/grp", base)
    );
    assert_eq!(
        String::from_utf8(consumer_instance_url(&host, &b"grp".to_vec())).unwrap(),
        format!("{}/consumers/grp", base)
    );
    assert_eq!(
        String::from_utf8(consume_records_url(&host, &b"grp".to_vec(), &b"i1".to_vec())).unwrap(),
        format!("{}/consumers/grp/instances/i1/records", base)
    );
    assert_eq!(
        String::from_utf8(recon_records_url(&host, &db, &b"grp".to_vec(), &b"c1".to_vec()))
            .unwrap(),
        format!(
            "{}/clusters/MYDATABASE/consumer-groups/grp/consumers/c1/records?limit=100",
            base
        )
    );
    let ords = get_ords_url(&host);
    assert_eq!(
        String::from_utf8(backup_save_url(&ords)).unwrap(),
        "https://db.example.com/ords/admin/_sdw/game_state/"
    );
    assert_eq!(
        String::from_utf8(backup_load_url(&ords, &b"k".to_vec())).unwrap(),
        "https://db.example.com/ords/admin/_sdw/game_state/k"
    );
}

#[test]
fn config_defaults_fill_the_gaps() {
    let c = get_oracle_config(None, None, None, None, None, None, None);
    assert_eq!(c.host, b"myhost.adb.region.oraclecloudapps.com".to_vec());
    assert_eq!(c.db_name, b"MYDATABASE".to_vec());
    assert_eq!(c.username, b"ADMIN".to_vec());
    assert_eq!(c.password, b"mypassword".to_vec());
    assert_eq!(c.topic, b"TEST_KAFKA_TOPIC_NEW".to_vec());
    assert_eq!(
        String::from_utf8(c.kafka_url).unwrap(),
        "https://myhost.adb.region.oraclecloudapps.com/ords/admin/_/db-api/stable/database/txeventq/clusters/MYDATABASE"
    );
    assert_eq!(
        String::from_utf8(c.ords_url).unwrap(),
        "https://myhost.adb.region.oraclecloudapps.com/ords/admin/_sdw"
    );
}

#[test]
fn config_honors_supplied_values() {
    let c = get_oracle_config(
        Some(b"h".to_vec()),
        Some(b"D".to_vec()),
        Some(b"u".to_vec()),
        Some(b"pw".to_vec()),
        Some(b"T".to_vec()),
        None,
        None,
    );
    assert_eq!(c.host, b"h".to_vec());
    assert_eq!(c.topic, b"T".to_vec());
    assert_eq!(
        String::from_utf8(c.kafka_url).unwrap(),
        "https://h/ords/admin/_/db-api/stable/database/txeventq/clusters/D"
    );
}

#[test]
fn join_creates_the_player_at_the_start() {
    let mut m = PlayerMap::new();
    let p = apply_join(&mut m, &b"p1".to_vec());
    assert_eq!((p.x, p.y), (25, 25));
    assert_eq!(p.direction, Direction::Up);
    assert_eq!(p.score, 0);
    assert_eq!(m.len(), 1);
}

#[test]
fn move_steps_turns_and_scores() {
    let mut m = PlayerMap::new();
    apply_join(&mut m, &b"p1".to_vec());
    let p = apply_move(&mut m, &b"p1".to_vec(), Direction::Left);
    assert_eq!((p.x, p.y), (24, 25));
    assert_eq!(p.direction, Direction::Left);
    assert_eq!(p.score, 1);
}

#[test]
fn move_clamps_at_the_arena_edge() {
    let mut m = PlayerMap::new();
    apply_join(&mut m, &b"p1".to_vec());
    for _ in 0..30 {
        apply_move(&mut m, &b"p1".to_vec(), Direction::Up);
    }
    let p = m.get(&b"p1".to_vec()).unwrap();
    assert_eq!(p.y, 0);
    for _ in 0..60 {
        apply_move(&mut m, &b"p1".to_vec(), Direction::Right);
    }
    let p = m.get(&b"p1".to_vec()).unwrap();
    assert_eq!(p.x, 49);
}

#[test]
fn move_from_an_out_of_range_record_lands_inside_the_arena() {
    let mut m = PlayerMap::new();
    m.insert(Player {
        id: b"far".to_vec(),
        x: 1000,
        y: 1000,
        direction: Direction::Up,
        score: 0,
        color: b"#c".to_vec(),
        alive: true,
    });
    let p = apply_move(&mut m, &b"far".to_vec(), Direction::Down);
    assert!(p.x <= 49 && p.y <= 49);
    assert_eq!((p.x, p.y), (49, 49));
}

#[test]
fn move_on_unknown_id_self_heals() {
    let mut m = PlayerMap::new();
    let p = apply_move(&mut m, &b"ghost".to_vec(), Direction::Down);
    assert_eq!((p.x, p.y), (25, 26));
    assert_eq!(p.score, 1);
    assert_eq!(m.len(), 1);
}

#[test]
fn leave_removes_the_record() {
    let mut m = PlayerMap::new();
    apply_join(&mut m, &b"p1".to_vec());
    let gone = m.remove(&b"p1".to_vec());
    assert!(gone.is_some());
    assert!(m.is_empty());
    assert!(m.remove(&b"p1".to_vec()).is_none());
}
