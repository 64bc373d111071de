//! Deterministic replay: ordering fetched events by their embedded
//! timestamps and folding them into a fresh player map.
//!
//! The broker's delivery order is not guaranteed, so the reconstructor
//! sorts ascending by the event-embedded timestamp, ties broken by fetch
//! order, and then applies the merge rules: a snapshot overwrites
//! unconditionally, a join only creates, a move updates or synthesizes,
//! a leave erases, anything else is ignored.

use vstd::prelude::*;

use crate::codec::{decode_event, decode_event_spec, RawRecord, RecordModel};
use crate::event::{event_models, EventKind, EventModel, GameEvent};
use crate::player::{
    clamp_coord, clamp_to_arena, clone_bytes, in_arena, Direction, Player, PlayerMap,
    PlayerModel, START_X, START_Y,
};
use crate::txt;

verus! {

/// Insertion of one later-fetched event into an already sorted run:
/// it lands after every event with an equal or smaller timestamp.
pub open spec fn insert_by_ts(s: Seq<EventModel>, e: EventModel) -> Seq<EventModel>
    decreases s.len(),
{
    if s.len() == 0 {
        seq![e]
    } else if s[0].timestamp <= e.timestamp {
        seq![s[0]] + insert_by_ts(s.drop_first(), e)
    } else {
        seq![e] + s
    }
}

/// Stable sort by embedded timestamp, ascending.
pub open spec fn sort_by_ts(s: Seq<EventModel>) -> Seq<EventModel>
    decreases s.len(),
{
    if s.len() == 0 {
        Seq::empty()
    } else {
        insert_by_ts(sort_by_ts(s.drop_last()), s.last())
    }
}

pub open spec fn sorted_by_ts(s: Seq<EventModel>) -> bool {
    forall|i: int, j: int| 0 <= i < j < s.len() ==> s[i].timestamp <= s[j].timestamp
}

/// In a sorted run, inserting at the boundary index is what
/// `insert_by_ts` denotes.
pub proof fn lemma_insert_by_ts_at(s: Seq<EventModel>, e: EventModel, k: int)
    requires
        0 <= k <= s.len(),
        forall|i: int| 0 <= i < k ==> s[i].timestamp <= e.timestamp,
        forall|i: int| k <= i < s.len() ==> s[i].timestamp > e.timestamp,
    ensures
        insert_by_ts(s, e) == s.take(k) + seq![e] + s.skip(k),
    decreases s.len(),
{
    if s.len() == 0 {
        assert(insert_by_ts(s, e) =~= s.take(k) + seq![e] + s.skip(k));
    } else if k == 0 {
        assert(s[0].timestamp > e.timestamp);
        assert(insert_by_ts(s, e) =~= s.take(0) + seq![e] + s.skip(0));
    } else {
        assert(s[0].timestamp <= e.timestamp);
        lemma_insert_by_ts_at(s.drop_first(), e, k - 1);
        assert(insert_by_ts(s, e) =~= s.take(k) + seq![e] + s.skip(k)) by {
            assert(insert_by_ts(s, e) == seq![s[0]] + insert_by_ts(s.drop_first(), e));
            assert(insert_by_ts(s.drop_first(), e) == s.drop_first().take(k - 1) + seq![e]
                + s.drop_first().skip(k - 1));
            assert(s.drop_first().take(k - 1) =~= s.take(k).drop_first());
            assert(s.drop_first().skip(k - 1) =~= s.skip(k));
        }
    }
}

/// Consumes the fetched events and returns them sorted by timestamp,
/// ties kept in fetch order.
pub fn sort_events_by_ts(events: Vec<GameEvent>) -> (r: Vec<GameEvent>)
    ensures
        event_models(r@) == sort_by_ts(event_models(events@)),
{
    let ghost input = event_models(events@);
    let mut rest = events;
    let mut out: Vec<GameEvent> = Vec::new();
    proof {
        assert(input.take(0) =~= Seq::<EventModel>::empty());
        assert(event_models(out@) =~= sort_by_ts(input.take(0)));
        assert(event_models(rest@) =~= input.skip(0));
    }
    while rest.len() > 0
        invariant
            event_models(rest@) == input.skip(input.len() - rest@.len()),
            rest@.len() <= input.len(),
            event_models(out@) == sort_by_ts(input.take(input.len() - rest@.len())),
            sorted_by_ts(event_models(out@)),
        decreases rest.len(),
    {
        let ghost k = input.len() - rest@.len();
        let e = rest.remove(0);
        proof {
            assert(e@ == input.skip(k)[0]);
            assert(event_models(rest@) =~= input.skip(k).drop_first());
            assert(input.skip(k).drop_first() =~= input.skip(k + 1));
        }
        let mut pos: usize = out.len();
        while pos > 0 && out[pos - 1].timestamp > e.timestamp
            invariant
                pos <= out@.len(),
                forall|i: int|
                    pos <= i < out@.len() ==> event_models(out@)[i].timestamp > e.timestamp,
            decreases pos,
        {
            proof {
                assert(event_models(out@)[pos - 1].timestamp == out@[pos - 1].timestamp);
            }
            pos = pos - 1;
        }
        let ghost models = event_models(out@);
        proof {
            if pos > 0 {
                assert(models[pos - 1].timestamp == out@[pos - 1].timestamp);
                assert(models[pos - 1].timestamp <= e@.timestamp);
            }
            assert(forall|i: int| 0 <= i < pos ==> (#[trigger] models[i]).timestamp
                <= e@.timestamp) by {
                assert(forall|i: int|
                    0 <= i < pos - 1 ==> (#[trigger] models[i]).timestamp <= models[
                        pos - 1
                    ].timestamp);
            }
            lemma_insert_by_ts_at(models, e@, pos as int);
        }
        out.insert(pos, e);
        proof {
            assert(event_models(out@) =~= models.take(pos as int) + seq![e@] + models.skip(
                pos as int,
            ));
            assert(event_models(out@) == insert_by_ts(models, e@));
            assert(input.take(k + 1).drop_last() =~= input.take(k));
            assert(input.take(k + 1).last() == input[k]);
            assert(sort_by_ts(input.take(k + 1)) == insert_by_ts(
                sort_by_ts(input.take(k)),
                input[k],
            ));
            assert(sorted_by_ts(event_models(out@))) by {
                let merged = models.take(pos as int) + seq![e@] + models.skip(pos as int);
                assert(forall|i: int, j: int|
                    0 <= i < j < merged.len() ==> merged[i].timestamp <= merged[j].timestamp)
                    by {
                    assert(forall|i: int|
                        0 <= i < models.len() ==> (#[trigger] models[i]).timestamp
                            == if i < pos as int {
                            merged[i].timestamp
                        } else {
                            merged[i + 1].timestamp
                        });
                }
            }
        }
    }
    proof {
        assert(input.take(input.len() as int) =~= input);
    }
    out
}

/// The record a join, snapshot or self-healing move synthesizes: event
/// fields where present, documented defaults elsewhere. Coordinates
/// are clamped so the data-model bound holds even for events carrying
/// out-of-range positions.
pub open spec fn event_player(e: EventModel) -> PlayerModel {
    PlayerModel {
        id: e.player_id,
        x: clamp_coord(
            match e.position {
                Some(p) => p.x,
                None => START_X,
            },
        ),
        y: clamp_coord(
            match e.position {
                Some(p) => p.y,
                None => START_Y,
            },
        ),
        direction: match e.direction {
            Some(d) => d,
            None => Direction::Up,
        },
        score: match e.score {
            Some(s) => s,
            None => 0u64,
        },
        color: txt("#06b6d4"@),
        alive: true,
    }
}

/// A move applied to an existing record: position, direction and score
/// are taken from the event where present, coordinates clamped to the
/// arena extent.
pub open spec fn merge_moved(p: PlayerModel, e: EventModel) -> PlayerModel {
    PlayerModel {
        id: e.player_id,
        x: clamp_coord(
            match e.position {
                Some(q) => q.x,
                None => p.x,
            },
        ),
        y: clamp_coord(
            match e.position {
                Some(q) => q.y,
                None => p.y,
            },
        ),
        direction: match e.direction {
            Some(d) => d,
            None => p.direction,
        },
        score: match e.score {
            Some(s) => s,
            None => p.score,
        },
        color: p.color,
        alive: p.alive,
    }
}

/// One replay step: the merge rules of the reconstructor.
pub open spec fn apply_event_spec(m: Map<Seq<u8>, PlayerModel>, e: EventModel) -> Map<
    Seq<u8>,
    PlayerModel,
> {
    match e.kind {
        EventKind::Snapshot => m.insert(e.player_id, event_player(e)),
        EventKind::Joined => if m.contains_key(e.player_id) {
            m
        } else {
            m.insert(e.player_id, event_player(e))
        },
        EventKind::Moved => if m.contains_key(e.player_id) {
            m.insert(e.player_id, merge_moved(m[e.player_id], e))
        } else {
            m.insert(e.player_id, event_player(e))
        },
        EventKind::Left => m.remove(e.player_id),
        EventKind::ServerSnapshot => m,
        EventKind::ConnectivityTest => m,
    }
}

/// Replay of a whole event run onto an initially empty map.
pub open spec fn replay_spec(events: Seq<EventModel>) -> Map<Seq<u8>, PlayerModel>
    decreases events.len(),
{
    if events.len() == 0 {
        Map::empty()
    } else {
        apply_event_spec(replay_spec(events.drop_last()), events.last())
    }
}

/// The default cosmetic color given to reconstructed players.
pub fn default_color() -> (r: Vec<u8>)
    ensures
        r@ == txt("#06b6d4"@),
{
    crate::str_bytes("#06b6d4")
}

/// Builds the player record an event synthesizes.
pub fn player_from_event(e: &GameEvent) -> (p: Player)
    ensures
        p@ == event_player(e@),
{
    Player {
        id: clone_bytes(&e.player_id),
        x: clamp_to_arena(
            match &e.position {
                Some(q) => q.x,
                None => START_X,
            },
        ),
        y: clamp_to_arena(
            match &e.position {
                Some(q) => q.y,
                None => START_Y,
            },
        ),
        direction: match &e.direction {
            Some(d) => *d,
            None => Direction::Up,
        },
        score: match &e.score {
            Some(s) => *s,
            None => 0,
        },
        color: default_color(),
        alive: true,
    }
}

/// Applies one event to the map under reconstruction.
pub fn apply_event(m: &mut PlayerMap, e: &GameEvent)
    ensures
        final(m)@ == apply_event_spec(old(m)@, e@),
{
    match e.kind {
        EventKind::Snapshot => {
            m.insert(player_from_event(e));
        },
        EventKind::Joined => {
            if !m.contains(&e.player_id) {
                m.insert(player_from_event(e));
            }
        },
        EventKind::Moved => {
            let merged = match m.get(&e.player_id) {
                Some(p) => Player {
                    id: clone_bytes(&e.player_id),
                    x: clamp_to_arena(
                        match &e.position {
                            Some(q) => q.x,
                            None => p.x,
                        },
                    ),
                    y: clamp_to_arena(
                        match &e.position {
                            Some(q) => q.y,
                            None => p.y,
                        },
                    ),
                    direction: match &e.direction {
                        Some(d) => *d,
                        None => p.direction,
                    },
                    score: match &e.score {
                        Some(s) => *s,
                        None => p.score,
                    },
                    color: clone_bytes(&p.color),
                    alive: p.alive,
                },
                None => player_from_event(e),
            };
            m.insert(merged);
        },
        EventKind::Left => {
            m.remove(&e.player_id);
        },
        EventKind::ServerSnapshot => {},
        EventKind::ConnectivityTest => {},
    }
}

/// Replays an event run, already sorted, onto a fresh map.
pub fn replay_events(events: &Vec<GameEvent>) -> (m: PlayerMap)
    ensures
        m@ == replay_spec(event_models(events@)),
{
    let ghost models = event_models(events@);
    let mut m = PlayerMap::new();
    let mut i: usize = 0;
    proof {
        assert(models.take(0) =~= Seq::<EventModel>::empty());
    }
    while i < events.len()
        invariant
            i <= events@.len(),
            models == event_models(events@),
            m@ == replay_spec(models.take(i as int)),
        decreases events.len() - i,
    {
        apply_event(&mut m, &events[i]);
        i = i + 1;
        proof {
            assert(models.take(i as int).drop_last() =~= models.take(i - 1));
            assert(models.take(i as int).last() == models[i - 1]);
        }
    }
    proof {
        assert(models.take(events@.len() as int) =~= models);
    }
    m
}

/// The events that decode out of a record batch, in fetch order.
/// Records whose value is not one of this system's canonical event
/// documents — including well-formed JSON in another member order —
/// are dropped, like any other unusable value.
pub open spec fn decoded_events(rs: Seq<RecordModel>) -> Seq<EventModel>
    decreases rs.len(),
{
    if rs.len() == 0 {
        Seq::empty()
    } else {
        decoded_events(rs.drop_last()) + (match decode_event_spec(rs.last().value) {
            Some(e) => seq![e],
            None => Seq::empty(),
        })
    }
}

/// Decodes each record's embedded event document.
pub fn events_from_records(records: &Vec<RawRecord>) -> (r: Vec<GameEvent>)
    ensures
        event_models(r@) == decoded_events(crate::codec::record_models(records@)),
{
    let ghost rs = crate::codec::record_models(records@);
    let mut out: Vec<GameEvent> = Vec::new();
    let mut i: usize = 0;
    proof {
        assert(rs.take(0) =~= Seq::<RecordModel>::empty());
        assert(event_models(out@) =~= decoded_events(rs.take(0)));
    }
    while i < records.len()
        invariant
            i <= records@.len(),
            rs == crate::codec::record_models(records@),
            event_models(out@) == decoded_events(rs.take(i as int)),
        decreases records.len() - i,
    {
        let ghost out0 = out@;
        match decode_event(&records[i].value) {
            Some(e) => {
                out.push(e);
            },
            None => {},
        }
        i = i + 1;
        proof {
            assert(rs.take(i as int).drop_last() =~= rs.take(i - 1));
            assert(rs.take(i as int).last() == rs[i - 1]);
            assert(rs[i - 1] == records@[i - 1]@);
            match decode_event_spec(rs[i - 1].value) {
                Some(ev) => {
                    assert(event_models(out@) =~= event_models(out0) + seq![ev]);
                },
                None => {
                    assert(event_models(out@) =~= event_models(out0) + Seq::<
                        EventModel,
                    >::empty());
                },
            }
        }
    }
    proof {
        assert(rs.take(records@.len() as int) =~= rs);
    }
    out
}

/// Law (data model): replay only ever stores records that lie inside
/// the arena extent, whatever positions the events carried.
pub proof fn lemma_replay_spec_in_arena(events: Seq<EventModel>)
    ensures
        forall|k: Seq<u8>| #[trigger] replay_spec(events).contains_key(k) ==> in_arena(
            replay_spec(events)[k],
        ),
    decreases events.len(),
{
    if events.len() > 0 {
        lemma_replay_spec_in_arena(events.drop_last());
        let prev = replay_spec(events.drop_last());
        let e = events.last();
        assert forall|k: Seq<u8>| #[trigger] replay_spec(events).contains_key(k) implies in_arena(
            replay_spec(events)[k],
        ) by {
            if replay_spec(events)[k] != event_player(e) && (!prev.contains_key(e.player_id)
                || replay_spec(events)[k] != merge_moved(prev[e.player_id], e)) {
                assert(prev.contains_key(k) && replay_spec(events)[k] == prev[k]);
            }
        }
    }
}

/// Sorts fetched events and replays them: the reconstruction core. The
/// result holds only in-arena records.
pub fn reconstruct_map(events: Vec<GameEvent>) -> (m: PlayerMap)
    ensures
        m@ == replay_spec(sort_by_ts(event_models(events@))),
        forall|k: Seq<u8>| #[trigger] m@.contains_key(k) ==> in_arena(m@[k]),
{
    let sorted = sort_events_by_ts(events);
    let m = replay_events(&sorted);
    proof {
        lemma_replay_spec_in_arena(sort_by_ts(event_models(events@)));
    }
    m
}

} // verus!
