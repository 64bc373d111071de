//! The compute halves of the game commands: what join and move do to
//! the player map. Request parsing and the replies around them live
//! with the transport; a leave is exactly `PlayerMap::remove`.

use vstd::prelude::*;

use crate::player::{
    clamp_coord, in_arena, Direction, Player, PlayerMap, PlayerModel, ARENA_MAX, START_X, START_Y,
};
use crate::txt;

verus! {

/// The record a fresh join creates: the fixed start position, the
/// default direction, zero score and the cosmetic default color.
pub open spec fn fresh_player(id: Seq<u8>) -> PlayerModel {
    PlayerModel {
        id,
        x: START_X,
        y: START_Y,
        direction: Direction::Up,
        score: 0u64,
        color: txt("#06b6d4"@),
        alive: true,
    }
}

/// Builds the record a join creates.
pub fn new_joined_player(id: &Vec<u8>) -> (p: Player)
    ensures
        p@ == fresh_player(id@),
{
    Player {
        id: crate::player::clone_bytes(id),
        x: START_X,
        y: START_Y,
        direction: Direction::Up,
        score: 0,
        color: crate::replay::default_color(),
        alive: true,
    }
}

/// A join (re)creates the player at the start position.
pub fn apply_join(m: &mut PlayerMap, id: &Vec<u8>) -> (p: Player)
    ensures
        p@ == fresh_player(id@),
        in_arena(p@),
        final(m)@ == old(m)@.insert(id@, fresh_player(id@)),
{
    let p = new_joined_player(id);
    m.insert(p.duplicate());
    p
}

/// One step in a direction, clamped to the arena extent.
pub open spec fn step_pos(x: u64, y: u64, d: Direction) -> (u64, u64) {
    match d {
        Direction::Up => (x, if y == 0 { 0u64 } else { (y - 1) as u64 }),
        Direction::Down => (x, if y >= ARENA_MAX { ARENA_MAX } else { (y + 1) as u64 }),
        Direction::Left => (if x == 0 { 0u64 } else { (x - 1) as u64 }, y),
        Direction::Right => (if x >= ARENA_MAX { ARENA_MAX } else { (x + 1) as u64 }, y),
    }
}

/// Movement earns one point; the score never decreases and saturates
/// instead of wrapping.
pub open spec fn bump_score(s: u64) -> u64 {
    if s < u64::MAX {
        (s + 1) as u64
    } else {
        s
    }
}

/// The record a move leaves behind: one clamped step from the stored
/// position, itself forced into the arena first, so the data-model
/// bound holds whatever record the move started from.
pub open spec fn moved_player(base: PlayerModel, id: Seq<u8>, d: Direction) -> PlayerModel {
    PlayerModel {
        id,
        x: step_pos(clamp_coord(base.x), clamp_coord(base.y), d).0,
        y: step_pos(clamp_coord(base.x), clamp_coord(base.y), d).1,
        direction: d,
        score: bump_score(base.score),
        color: base.color,
        alive: base.alive,
    }
}

/// The record a move starts from: the stored one, or a fresh join when
/// the id is unknown — self-healing at the command level.
pub open spec fn move_base(m: Map<Seq<u8>, PlayerModel>, id: Seq<u8>) -> PlayerModel {
    if m.contains_key(id) {
        m[id]
    } else {
        fresh_player(id)
    }
}

/// A move turns the player, steps once with clamping, and earns a
/// point; an unknown id is first created at the start position. The
/// result always lies inside the arena.
pub fn apply_move(m: &mut PlayerMap, id: &Vec<u8>, d: Direction) -> (p: Player)
    ensures
        p@ == moved_player(move_base(old(m)@, id@), id@, d),
        in_arena(p@),
        final(m)@ == old(m)@.insert(id@, moved_player(move_base(old(m)@, id@), id@, d)),
{
    let base = match m.get(id) {
        Some(stored) => stored.duplicate(),
        None => new_joined_player(id),
    };
    let bx = crate::player::clamp_to_arena(base.x);
    let by = crate::player::clamp_to_arena(base.y);
    let (x, y) = match d {
        Direction::Up => (bx, if by == 0 { 0 } else { by - 1 }),
        Direction::Down => (bx, if by >= ARENA_MAX { ARENA_MAX } else { by + 1 }),
        Direction::Left => (if bx == 0 { 0 } else { bx - 1 }, by),
        Direction::Right => (if bx >= ARENA_MAX { ARENA_MAX } else { bx + 1 }, by),
    };
    let score = if base.score < u64::MAX {
        base.score + 1
    } else {
        base.score
    };
    let p = Player {
        id: crate::player::clone_bytes(id),
        x,
        y,
        direction: d,
        score,
        color: base.color,
        alive: base.alive,
    };
    m.insert(p.duplicate());
    p
}

} // verus!
