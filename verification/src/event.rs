//! Game events: the records that flow through the broker and that the
//! reconstructor replays into a player map.

use vstd::prelude::*;

use crate::player::Direction;

verus! {

/// A point in the arena.
#[derive(Clone, Copy, PartialEq, Eq, Structural, Debug)]
pub struct Position {
    pub x: u64,
    pub y: u64,
}

/// The tagged variants an event can carry.
#[derive(Clone, Copy, PartialEq, Eq, Structural, Debug)]
pub enum EventKind {
    Joined,
    Moved,
    Left,
    Snapshot,
    ServerSnapshot,
    ConnectivityTest,
}

/// One game event, with its origin tags and embedded timestamp.
pub struct GameEvent {
    pub kind: EventKind,
    pub player_id: Vec<u8>,
    pub game_id: Vec<u8>,
    pub runtime: Vec<u8>,
    pub castle: Vec<u8>,
    pub timestamp: u64,
    pub position: Option<Position>,
    pub direction: Option<Direction>,
    pub score: Option<u64>,
}

/// Mathematical image of an event.
pub struct EventModel {
    pub kind: EventKind,
    pub player_id: Seq<u8>,
    pub game_id: Seq<u8>,
    pub runtime: Seq<u8>,
    pub castle: Seq<u8>,
    pub timestamp: u64,
    pub position: Option<Position>,
    pub direction: Option<Direction>,
    pub score: Option<u64>,
}

impl View for GameEvent {
    type V = EventModel;

    open spec fn view(&self) -> EventModel {
        EventModel {
            kind: self.kind,
            player_id: self.player_id@,
            game_id: self.game_id@,
            runtime: self.runtime@,
            castle: self.castle@,
            timestamp: self.timestamp,
            position: self.position,
            direction: self.direction,
            score: self.score,
        }
    }
}

/// Models of an event sequence, in order.
pub open spec fn event_models(s: Seq<GameEvent>) -> Seq<EventModel> {
    s.map_values(|e: GameEvent| e@)
}

impl GameEvent {
    /// Field-for-field copy with an exact contract.
    pub fn duplicate(&self) -> (r: GameEvent)
        ensures
            r@ == self@,
    {
        GameEvent {
            kind: self.kind,
            player_id: crate::player::clone_bytes(&self.player_id),
            game_id: crate::player::clone_bytes(&self.game_id),
            runtime: crate::player::clone_bytes(&self.runtime),
            castle: crate::player::clone_bytes(&self.castle),
            timestamp: self.timestamp,
            position: self.position,
            direction: self.direction,
            score: self.score,
        }
    }
}

/// The fall-back event the save path publishes when the backup store is
/// unreachable: a bare full-state checkpoint signal from the server.
pub fn server_snapshot_event(runtime: &Vec<u8>, castle: &Vec<u8>, game_id: &Vec<u8>, ts: u64) -> (
    e: GameEvent)
    ensures
        e@.kind == EventKind::ServerSnapshot,
        e@.player_id == runtime@ + crate::txt("_server"@),
        e@.game_id == game_id@,
        e@.runtime == runtime@,
        e@.castle == castle@,
        e@.timestamp == ts,
        e@.position is None,
        e@.direction is None,
        e@.score is None,
{
    let mut pid = crate::player::clone_bytes(runtime);
    let mut suffix = crate::str_bytes("_server");
    pid.append(&mut suffix);
    GameEvent {
        kind: EventKind::ServerSnapshot,
        player_id: pid,
        game_id: crate::player::clone_bytes(game_id),
        runtime: crate::player::clone_bytes(runtime),
        castle: crate::player::clone_bytes(castle),
        timestamp: ts,
        position: None,
        direction: None,
        score: None,
    }
}

/// The probe event used to test broker connectivity end to end.
pub fn connectivity_test_event(runtime: &Vec<u8>, castle: &Vec<u8>, player_id: Vec<u8>, ts: u64)
    -> (e: GameEvent)
    ensures
        e@.kind == EventKind::ConnectivityTest,
        e@.player_id == player_id@,
        e@.game_id == crate::txt("connectivity-test"@),
        e@.runtime == runtime@,
        e@.castle == castle@,
        e@.timestamp == ts,
        e@.position == Some(Position { x: 0, y: 0 }),
        e@.direction is None,
        e@.score == Some(42u64),
{
    GameEvent {
        kind: EventKind::ConnectivityTest,
        player_id,
        game_id: crate::str_bytes("connectivity-test"),
        runtime: crate::player::clone_bytes(runtime),
        castle: crate::player::clone_bytes(castle),
        timestamp: ts,
        position: Some(Position { x: 0, y: 0 }),
        direction: None,
        score: Some(42),
    }
}

/// The event a join publishes: the new record's position, direction
/// and score embedded.
pub fn join_event(p: &crate::player::Player, game_id: &Vec<u8>, runtime: &Vec<u8>, castle: &Vec<
    u8,
>, ts: u64) -> (e: GameEvent)
    ensures
        e@.kind == EventKind::Joined,
        e@.player_id == p.id@,
        e@.game_id == game_id@,
        e@.runtime == runtime@,
        e@.castle == castle@,
        e@.timestamp == ts,
        e@.position == Some(Position { x: p.x, y: p.y }),
        e@.direction == Some(p.direction),
        e@.score == Some(p.score),
{
    GameEvent {
        kind: EventKind::Joined,
        player_id: crate::player::clone_bytes(&p.id),
        game_id: crate::player::clone_bytes(game_id),
        runtime: crate::player::clone_bytes(runtime),
        castle: crate::player::clone_bytes(castle),
        timestamp: ts,
        position: Some(Position { x: p.x, y: p.y }),
        direction: Some(p.direction),
        score: Some(p.score),
    }
}

/// The event a move publishes: the updated record embedded.
pub fn move_event(p: &crate::player::Player, game_id: &Vec<u8>, runtime: &Vec<u8>, castle: &Vec<
    u8,
>, ts: u64) -> (e: GameEvent)
    ensures
        e@.kind == EventKind::Moved,
        e@.player_id == p.id@,
        e@.game_id == game_id@,
        e@.runtime == runtime@,
        e@.castle == castle@,
        e@.timestamp == ts,
        e@.position == Some(Position { x: p.x, y: p.y }),
        e@.direction == Some(p.direction),
        e@.score == Some(p.score),
{
    GameEvent {
        kind: EventKind::Moved,
        player_id: crate::player::clone_bytes(&p.id),
        game_id: crate::player::clone_bytes(game_id),
        runtime: crate::player::clone_bytes(runtime),
        castle: crate::player::clone_bytes(castle),
        timestamp: ts,
        position: Some(Position { x: p.x, y: p.y }),
        direction: Some(p.direction),
        score: Some(p.score),
    }
}

/// The event a leave publishes: only the final score travels.
pub fn leave_event(player_id: &Vec<u8>, final_score: u64, game_id: &Vec<u8>, runtime: &Vec<u8>,
    castle: &Vec<u8>, ts: u64) -> (e: GameEvent)
    ensures
        e@.kind == EventKind::Left,
        e@.player_id == player_id@,
        e@.game_id == game_id@,
        e@.runtime == runtime@,
        e@.castle == castle@,
        e@.timestamp == ts,
        e@.position is None,
        e@.direction is None,
        e@.score == Some(final_score),
{
    GameEvent {
        kind: EventKind::Left,
        player_id: crate::player::clone_bytes(player_id),
        game_id: crate::player::clone_bytes(game_id),
        runtime: crate::player::clone_bytes(runtime),
        castle: crate::player::clone_bytes(castle),
        timestamp: ts,
        position: None,
        direction: None,
        score: Some(final_score),
    }
}

} // verus!
