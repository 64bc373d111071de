use wasicycles::backup::{classify_backup_load, backup_save_ok, BackupLoadResult};
use wasicycles::broker::HttpReply;
use wasicycles::codec::{encode_event, encode_state, RawRecord};
use wasicycles::event::{EventKind, GameEvent, Position};
use wasicycles::player::{Direction, Player, PlayerMap};
use wasicycles::store::{
    load_after_backup, load_begin, pick_candidate_records, reconstruct_apply, reconstruct_begin,
    reconstruction_topics, save_fallback_event, save_update, AfterBackup, LoadStep, ReconStep,
    StoreCtx, RECONSTRUCTION_COOLDOWN_MS,
};

fn event(kind: EventKind, id: &[u8], ts: u64, pos: Option<(u64, u64)>, score: Option<u64>) -> GameEvent {
    GameEvent {
        kind,
        player_id: id.to_vec(),
        game_id: b"wasicycles-multiplayer".to_vec(),
        runtime: b"wasmtime".to_vec(),
        castle: b"Temporal Sanctuary".to_vec(),
        timestamp: ts,
        position: pos.map(|(x, y)| Position { x, y }),
        direction: None,
        score,
    }
}

fn record_of(e: &GameEvent, offset: u64) -> RawRecord {
    RawRecord {
        topic: b"T".to_vec(),
        partition: 0,
        offset,
        timestamp: e.timestamp,
        key: b"k".to_vec(),
        value: encode_event(e),
    }
}

fn sample_player(id: &[u8], score: u64) -> Player {
    Player {
        id: id.to_vec(),
        x: 10,
        y: 20,
        direction: Direction::Right,
        score,
        color: b"#06b6d4".to_vec(),
        alive: true,
    }
}

#[test]
fn load_returns_populated_working_copy_verbatim() {
    let mut ctx = StoreCtx::new();
    let mut m = PlayerMap::new();
    m.insert(sample_player(b"P", 3));
    save_update(&mut ctx, m);
    // Tier 1 answers: the load is over before any remote call.
    match load_begin(&ctx) {
        LoadStep::Done(got) => {
            assert_eq!(got.len(), 1);
            assert_eq!(got.get(&b"P".to_vec()).unwrap().score, 3);
        }
        LoadStep::NeedBackup => panic!("tier 1 was populated"),
    }
}

#[test]
fn load_falls_back_to_cached_blob() {
    let mut m = PlayerMap::new();
    m.insert(sample_player(b"P", 3));
    let blob = encode_state(&m);
    let ctx = StoreCtx {
        working: PlayerMap::new(),
        cached_blob: Some(blob),
        last_reconstruction: 0,
    };
    match load_begin(&ctx) {
        LoadStep::Done(got) => {
            assert_eq!(got.get(&b"P".to_vec()).unwrap().x, 10);
        }
        LoadStep::NeedBackup => panic!("tier 2 held a usable snapshot"),
    }
}

#[test]
fn load_with_empty_local_tiers_asks_for_backup() {
    let ctx = StoreCtx::new();
    assert!(matches!(load_begin(&ctx), LoadStep::NeedBackup));
}

#[test]
fn backup_success_ends_the_load_without_the_broker() {
    let mut ctx = StoreCtx::new();
    let mut m = PlayerMap::new();
    m.insert(sample_player(b"Q", 9));
    let blob = encode_state(&m);
    match load_after_backup(&mut ctx, BackupLoadResult::Blob(blob.clone())) {
        AfterBackup::Done(got) => {
            assert_eq!(got.get(&b"Q".to_vec()).unwrap().score, 9);
            // tier 2 was repopulated from the backup bytes
            assert_eq!(ctx.cached_blob, Some(blob));
        }
        AfterBackup::NeedReconstruction => panic!("backup held a usable blob"),
    }
}

#[test]
fn backup_failure_falls_through_to_reconstruction() {
    let mut ctx = StoreCtx::new();
    assert!(matches!(
        load_after_backup(&mut ctx, BackupLoadResult::NotFound),
        AfterBackup::NeedReconstruction
    ));
    assert!(matches!(
        load_after_backup(&mut ctx, BackupLoadResult::Error),
        AfterBackup::NeedReconstruction
    ));
    // an unparsable blob counts as failure too
    assert!(matches!(
        load_after_backup(&mut ctx, BackupLoadResult::Blob(b"garbage".to_vec())),
        AfterBackup::NeedReconstruction
    ));
}

#[test]
fn backup_load_classification() {
    let ok = HttpReply {
        status: 200,
        body: b"{\"state_data\":\"{}\"}".to_vec(),
    };
    assert!(matches!(
        classify_backup_load(Some(ok)),
        BackupLoadResult::Blob(b) if b == b"{}".to_vec()
    ));
    let missing = HttpReply { status: 404, body: Vec::new() };
    assert!(matches!(
        classify_backup_load(Some(missing)),
        BackupLoadResult::NotFound
    ));
    let not_allowed = HttpReply { status: 405, body: Vec::new() };
    assert!(matches!(
        classify_backup_load(Some(not_allowed)),
        BackupLoadResult::NotFound
    ));
    let error = HttpReply { status: 500, body: b"boom".to_vec() };
    assert!(matches!(classify_backup_load(Some(error)), BackupLoadResult::Error));
    assert!(matches!(classify_backup_load(None), BackupLoadResult::Error));
    let no_field = HttpReply { status: 200, body: b"{}".to_vec() };
    assert!(matches!(classify_backup_load(Some(no_field)), BackupLoadResult::Error));
}

#[test]
fn backup_save_classification() {
    assert!(backup_save_ok(&Some(HttpReply { status: 201, body: Vec::new() })));
    assert!(!backup_save_ok(&Some(HttpReply { status: 500, body: Vec::new() })));
    assert!(!backup_save_ok(&None));
}

#[test]
fn save_failure_on_nonempty_state_publishes_one_snapshot() {
    let mut m = PlayerMap::new();
    m.insert(sample_player(b"P", 1));
    let e = save_fallback_event(
        &m,
        false,
        &b"wasmtime".to_vec(),
        &b"Temporal Sanctuary".to_vec(),
        &b"wasicycles-multiplayer".to_vec(),
        42,
    )
    .expect("failed backup with players must announce a snapshot");
    assert_eq!(e.kind, EventKind::ServerSnapshot);
    assert_eq!(e.timestamp, 42);
    assert!(e.position.is_none() && e.direction.is_none() && e.score.is_none());
}

#[test]
fn save_failure_on_empty_state_stays_quiet() {
    let m = PlayerMap::new();
    assert!(save_fallback_event(
        &m,
        false,
        &b"wasmtime".to_vec(),
        &b"Temporal Sanctuary".to_vec(),
        &b"wasicycles-multiplayer".to_vec(),
        42,
    )
    .is_none());
}

#[test]
fn save_success_needs_no_fallback() {
    let mut m = PlayerMap::new();
    m.insert(sample_player(b"P", 1));
    assert!(save_fallback_event(
        &m,
        true,
        &b"wasmtime".to_vec(),
        &b"Temporal Sanctuary".to_vec(),
        &b"wasicycles-multiplayer".to_vec(),
        42,
    )
    .is_none());
}

#[test]
fn replay_scenario_join_move_move_leave() {
    // joined(t1), moved(t2, (1,1)), moved(t3, (2,2)), left(t4): the
    // final map no longer holds P.
    let records = vec![
        record_of(&event(EventKind::Joined, b"P", 1, None, Some(0)), 0),
        record_of(&event(EventKind::Moved, b"P", 2, Some((1, 1)), Some(1)), 1),
        record_of(&event(EventKind::Moved, b"P", 3, Some((2, 2)), Some(2)), 2),
        record_of(&event(EventKind::Left, b"P", 4, None, None), 3),
    ];
    let mut ctx = StoreCtx::new();
    let m = reconstruct_apply(&mut ctx, &records);
    assert!(m.is_empty());
}

#[test]
fn replay_scenario_stops_before_leave() {
    // The same run without the leave: P sits at (2,2).
    let records = vec![
        record_of(&event(EventKind::Joined, b"P", 1, None, Some(0)), 0),
        record_of(&event(EventKind::Moved, b"P", 2, Some((1, 1)), Some(1)), 1),
        record_of(&event(EventKind::Moved, b"P", 3, Some((2, 2)), Some(2)), 2),
    ];
    let mut ctx = StoreCtx::new();
    let m = reconstruct_apply(&mut ctx, &records);
    let p = m.get(&b"P".to_vec()).expect("P is still playing");
    assert_eq!((p.x, p.y), (2, 2));
    assert_eq!(p.score, 2);
}

#[test]
fn replay_join_alone_uses_defaults() {
    let records = vec![record_of(&event(EventKind::Joined, b"P", 1, None, None), 0)];
    let mut ctx = StoreCtx::new();
    let m = reconstruct_apply(&mut ctx, &records);
    let p = m.get(&b"P".to_vec()).expect("P joined");
    assert_eq!((p.x, p.y), (25, 25));
    assert_eq!(p.direction, Direction::Up);
    assert_eq!(p.score, 0);
}

#[test]
fn replay_is_ordered_by_embedded_timestamp_not_fetch_order() {
    // Delivered out of order: the t3 move arrives first.
    let records = vec![
        record_of(&event(EventKind::Moved, b"P", 3, Some((2, 2)), Some(2)), 0),
        record_of(&event(EventKind::Joined, b"P", 1, None, Some(0)), 1),
        record_of(&event(EventKind::Moved, b"P", 2, Some((1, 1)), Some(1)), 2),
    ];
    let mut ctx = StoreCtx::new();
    let m = reconstruct_apply(&mut ctx, &records);
    let p = m.get(&b"P".to_vec()).expect("P exists");
    assert_eq!((p.x, p.y), (2, 2));
}

#[test]
fn snapshot_overrides_earlier_partial_state() {
    // joined(t1, score 0) then snapshot(t2, score 99): the snapshot is
    // authoritative for every field.
    let mut snap = event(EventKind::Snapshot, b"P", 2, Some((7, 8)), Some(99));
    snap.direction = Some(Direction::Down);
    let records = vec![
        record_of(&event(EventKind::Joined, b"P", 1, None, Some(0)), 0),
        record_of(&snap, 1),
    ];
    let mut ctx = StoreCtx::new();
    let m = reconstruct_apply(&mut ctx, &records);
    let p = m.get(&b"P".to_vec()).expect("P exists");
    assert_eq!(p.score, 99);
    assert_eq!((p.x, p.y), (7, 8));
    assert_eq!(p.direction, Direction::Down);
}

#[test]
fn lone_move_self_heals() {
    // moved(t5, Q, (3,3)) alone: Q appears at (3,3) with the default
    // direction and the score taken from the event.
    let records = vec![record_of(
        &event(EventKind::Moved, b"Q", 5, Some((3, 3)), Some(4)),
        0,
    )];
    let mut ctx = StoreCtx::new();
    let m = reconstruct_apply(&mut ctx, &records);
    let q = m.get(&b"Q".to_vec()).expect("Q was synthesized");
    assert_eq!((q.x, q.y), (3, 3));
    assert_eq!(q.direction, Direction::Up);
    assert_eq!(q.score, 4);
}

#[test]
fn replay_clamps_event_positions_to_the_arena() {
    // An event carrying a position beyond the arena extent still
    // creates the player, at the clamped edge.
    let records = vec![record_of(
        &event(EventKind::Moved, b"R", 5, Some((500, 7)), Some(1)),
        0,
    )];
    let mut ctx = StoreCtx::new();
    let m = reconstruct_apply(&mut ctx, &records);
    let r = m.get(&b"R".to_vec()).expect("R was synthesized");
    assert_eq!((r.x, r.y), (49, 7));
}

#[test]
fn reconstruction_populates_the_local_tiers() {
    let records = vec![record_of(&event(EventKind::Joined, b"P", 1, None, Some(0)), 0)];
    let mut ctx = StoreCtx::new();
    let m = reconstruct_apply(&mut ctx, &records);
    assert!(!m.is_empty());
    assert_eq!(ctx.working.len(), 1);
    assert!(ctx.cached_blob.is_some());
}

#[test]
fn reconstruction_rate_limit_suppresses_the_second_call() {
    let mut ctx = StoreCtx::new();
    let t1 = RECONSTRUCTION_COOLDOWN_MS + 5;
    assert!(matches!(reconstruct_begin(&mut ctx, t1), ReconStep::Fetch));
    assert_eq!(ctx.last_reconstruction, t1);
    // A second call within the cool-down window returns an empty map
    // immediately and leaves the clock alone.
    match reconstruct_begin(&mut ctx, t1 + RECONSTRUCTION_COOLDOWN_MS - 1) {
        ReconStep::RateLimited(m) => assert!(m.is_empty()),
        ReconStep::Fetch => panic!("rate limit must hold inside the window"),
    }
    assert_eq!(ctx.last_reconstruction, t1);
    // Once the window has passed, reconstruction is allowed again.
    assert!(matches!(
        reconstruct_begin(&mut ctx, t1 + RECONSTRUCTION_COOLDOWN_MS),
        ReconStep::Fetch
    ));
}

#[test]
fn reconstruction_topic_order() {
    let (first, second) = reconstruction_topics(&b"GAME_EVENTS".to_vec());
    assert_eq!(first, b"GAME_EVENTS_STATE".to_vec());
    assert_eq!(second, b"GAME_EVENTS".to_vec());
}

#[test]
fn candidate_records_prefer_the_first_topic() {
    let e = event(EventKind::Joined, b"P", 1, None, None);
    let first = vec![record_of(&e, 0)];
    let second = vec![record_of(&e, 1), record_of(&e, 2)];
    assert_eq!(pick_candidate_records(first, second).len(), 1);
    let second_again = vec![record_of(&e, 1), record_of(&e, 2)];
    assert_eq!(pick_candidate_records(Vec::new(), second_again).len(), 2);
}

#[test]
fn save_update_fills_both_local_tiers() {
    let mut ctx = StoreCtx::new();
    let mut m = PlayerMap::new();
    m.insert(sample_player(b"P", 3));
    let blob = save_update(&mut ctx, m);
    assert_eq!(ctx.working.len(), 1);
    assert_eq!(ctx.cached_blob, Some(blob));
}
