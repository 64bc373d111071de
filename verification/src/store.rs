//! The tiered state store: Load never fails and Save never surfaces a
//! persistence failure.
//!
//! Load short-circuits at the first tier that answers: the in-process
//! working copy, the cached serialized snapshot, the backup store, and
//! finally rate-limited reconstruction from the event log, falling back
//! to an empty map. Save updates the local tiers unconditionally and
//! treats both remote attempts as best effort.
//!
//! Remote calls are the caller's: each step function here either
//! finishes the load or names the single next tier to consult, so the
//! fallback order and the one-shot nature of reconstruction are part of
//! the contracts.

use vstd::prelude::*;

use crate::backup::{BackupLoadModel, BackupLoadResult};
use crate::codec::{
    encode_state, encode_state_spec, map_of_models, parse_state_spec, RawRecord,
};
use crate::event::{server_snapshot_event, EventKind, GameEvent};
use crate::player::{clone_bytes, in_arena, models_of, PlayerMap, PlayerModel};
use crate::replay::{decoded_events, replay_spec, sort_by_ts};
use crate::txt;

verus! {

/// Reconstruction may run again only after this cool-down, so a
/// cold-start storm cannot trigger it on every request.
pub const RECONSTRUCTION_COOLDOWN_MS: u64 = 10000;

/// The explicit per-context state the store owns: the two local tiers
/// and the reconstruction clock. On a cold start all of it is reset.
pub struct StoreCtx {
    /// Tier 1: the in-process working copy.
    pub working: PlayerMap,
    /// Tier 2: the serialized snapshot the working copy was saved as.
    pub cached_blob: Option<Vec<u8>>,
    /// When reconstruction last ran, in epoch milliseconds.
    pub last_reconstruction: u64,
}

/// Model of the optional cached blob.
pub open spec fn blob_model(b: Option<Vec<u8>>) -> Option<Seq<u8>> {
    match b {
        Some(v) => Some(v@),
        None => None,
    }
}

impl StoreCtx {
    /// The cold-start context: everything empty, reconstruction armed.
    pub fn new() -> (c: StoreCtx)
        ensures
            c.working@ == Map::<Seq<u8>, PlayerModel>::empty(),
            c.cached_blob is None,
            c.last_reconstruction == 0,
    {
        StoreCtx { working: PlayerMap::new(), cached_blob: None, last_reconstruction: 0 }
    }
}

/// What the two local tiers answer: a non-empty working copy verbatim,
/// else a cached snapshot that deserializes to a non-empty map.
pub open spec fn local_load_spec(
    working: Map<Seq<u8>, PlayerModel>,
    cached: Option<Seq<u8>>,
) -> Option<Map<Seq<u8>, PlayerModel>> {
    if working != Map::<Seq<u8>, PlayerModel>::empty() {
        Some(working)
    } else {
        match cached {
            Some(blob) => match parse_state_spec(blob) {
                Some(entries) => if map_of_models(entries) != Map::<
                    Seq<u8>,
                    PlayerModel,
                >::empty() {
                    Some(map_of_models(entries))
                } else {
                    None
                },
                None => None,
            },
            None => None,
        }
    }
}

/// How far a load has come.
pub enum LoadStep {
    /// A local tier answered; no remote call is to be made.
    Done(PlayerMap),
    /// Both local tiers failed; consult the backup store next.
    NeedBackup,
}

/// Load, tiers one and two. When the result is `Done`, the load is
/// over without any remote call; only `NeedBackup` sends the caller to
/// the backup store.
pub fn load_begin(ctx: &StoreCtx) -> (r: LoadStep)
    ensures
        match local_load_spec(ctx.working@, blob_model(ctx.cached_blob)) {
            Some(m) => r matches LoadStep::Done(pm) && pm@ == m,
            None => r is NeedBackup,
        },
{
    if !ctx.working.is_empty() {
        return LoadStep::Done(ctx.working.duplicate());
    }
    match &ctx.cached_blob {
        Some(blob) => match crate::codec::decode_state(blob) {
            Some(m) => {
                if !m.is_empty() {
                    LoadStep::Done(m)
                } else {
                    LoadStep::NeedBackup
                }
            },
            None => LoadStep::NeedBackup,
        },
        None => LoadStep::NeedBackup,
    }
}

/// What tier three answers: a loaded blob that deserializes, with the
/// deserialized map handed back; absence, errors and malformed blobs
/// all fall through to reconstruction.
pub open spec fn backup_outcome_spec(result: BackupLoadModel) -> Option<
    Map<Seq<u8>, PlayerModel>,
> {
    match result {
        BackupLoadModel::Blob(blob) => match parse_state_spec(blob) {
            Some(entries) => Some(map_of_models(entries)),
            None => None,
        },
        BackupLoadModel::NotFound => None,
        BackupLoadModel::Error => None,
    }
}

/// How a load goes on after the backup store answered.
pub enum AfterBackup {
    /// The backup blob was usable; the broker is never consulted.
    Done(PlayerMap),
    /// Consult the reconstructor next — the one remaining tier.
    NeedReconstruction,
}

/// Load, tier three. On success the deserialized map is returned and
/// tier two's cached bytes are repopulated; otherwise the context is
/// untouched and reconstruction is next.
pub fn load_after_backup(ctx: &mut StoreCtx, result: BackupLoadResult) -> (r: AfterBackup)
    ensures
        match backup_outcome_spec(result@) {
            Some(m) => {
                &&& r matches AfterBackup::Done(pm) && pm@ == m
                &&& result@ matches BackupLoadModel::Blob(b) && blob_model(
                    final(ctx).cached_blob,
                ) == Some(b)
            },
            None => r is NeedReconstruction && final(ctx).cached_blob == old(ctx).cached_blob,
        },
        final(ctx).working@ == old(ctx).working@,
        final(ctx).last_reconstruction == old(ctx).last_reconstruction,
{
    match result {
        BackupLoadResult::Blob(blob) => match crate::codec::decode_state(&blob) {
            Some(m) => {
                ctx.cached_blob = Some(blob);
                AfterBackup::Done(m)
            },
            None => AfterBackup::NeedReconstruction,
        },
        BackupLoadResult::NotFound => AfterBackup::NeedReconstruction,
        BackupLoadResult::Error => AfterBackup::NeedReconstruction,
    }
}

/// The reconstructor runs when the cool-down has elapsed since it last
/// ran; with a clock that moved backwards it stays gated.
pub open spec fn reconstruction_allowed(now: u64, last: u64) -> bool {
    now - last >= RECONSTRUCTION_COOLDOWN_MS
}

/// How a load goes on after the cool-down test.
pub enum ReconStep {
    /// Inside the cool-down window: the empty map, immediately, with
    /// no remote call and no state change.
    RateLimited(PlayerMap),
    /// Fetch the bounded window of recent records now.
    Fetch,
}

/// Load, tier four, first half: the cool-down test. When
/// reconstruction may run, the clock is stamped so that a second call
/// within the window is refused.
pub fn reconstruct_begin(ctx: &mut StoreCtx, now: u64) -> (r: ReconStep)
    ensures
        reconstruction_allowed(now, old(ctx).last_reconstruction) ==> {
            &&& r is Fetch
            &&& final(ctx).last_reconstruction == now
        },
        !reconstruction_allowed(now, old(ctx).last_reconstruction) ==> {
            &&& r matches ReconStep::RateLimited(m) && m@ == Map::<Seq<u8>, PlayerModel>::empty()
            &&& final(ctx).last_reconstruction == old(ctx).last_reconstruction
        },
        final(ctx).working@ == old(ctx).working@,
        final(ctx).cached_blob == old(ctx).cached_blob,
{
    if now >= ctx.last_reconstruction && now - ctx.last_reconstruction
        >= RECONSTRUCTION_COOLDOWN_MS {
        ctx.last_reconstruction = now;
        ReconStep::Fetch
    } else {
        ReconStep::RateLimited(PlayerMap::new())
    }
}

/// The topics reconstruction reads, in order: the dedicated state
/// topic first, falling back to the primary game-event topic.
pub fn reconstruction_topics(topic: &Vec<u8>) -> (r: (Vec<u8>, Vec<u8>))
    ensures
        r.0@ == topic@ + txt("_STATE"@),
        r.1@ == topic@,
{
    let mut first = clone_bytes(topic);
    crate::codec::push_lit(&mut first, "_STATE");
    (first, clone_bytes(topic))
}

/// The candidate that counts: the first topic's records when it
/// yielded any, else the fallback topic's.
pub fn pick_candidate_records(first: Vec<RawRecord>, second: Vec<RawRecord>) -> (r: Vec<
    RawRecord,
>)
    ensures
        first@.len() > 0 ==> crate::codec::record_models(r@) == crate::codec::record_models(
            first@,
        ),
        first@.len() == 0 ==> crate::codec::record_models(r@) == crate::codec::record_models(
            second@,
        ),
{
    if first.len() > 0 {
        first
    } else {
        second
    }
}

/// Load, tier four, second half: decode, order and replay the fetched
/// records; a non-empty result is written back through the save path
/// so later calls in this context reuse it instead of reconstructing.
pub fn reconstruct_apply(ctx: &mut StoreCtx, records: &Vec<RawRecord>) -> (m: PlayerMap)
    ensures
        m@ == replay_spec(sort_by_ts(decoded_events(crate::codec::record_models(records@)))),
        forall|k: Seq<u8>| #[trigger] m@.contains_key(k) ==> in_arena(m@[k]),
        m@ != Map::<Seq<u8>, PlayerModel>::empty() ==> {
            &&& final(ctx).working@ == m@
            &&& blob_model(final(ctx).cached_blob) is Some
        },
        m@ == Map::<Seq<u8>, PlayerModel>::empty() ==> {
            &&& final(ctx).working@ == old(ctx).working@
            &&& final(ctx).cached_blob == old(ctx).cached_blob
        },
        final(ctx).last_reconstruction == old(ctx).last_reconstruction,
{
    let events = crate::replay::events_from_records(records);
    let m = crate::replay::reconstruct_map(events);
    if !m.is_empty() {
        let copy = m.duplicate();
        let _blob = save_update(ctx, copy);
    }
    m
}

/// Save, local half: update the working copy and its serialized form
/// unconditionally. The returned blob is what the caller sends to the
/// backup store, best effort.
pub fn save_update(ctx: &mut StoreCtx, m: PlayerMap) -> (blob: Vec<u8>)
    ensures
        final(ctx).working@ == m@,
        blob@ == encode_state_spec(models_of(m.seq_view())),
        blob_model(final(ctx).cached_blob) == Some(blob@),
        final(ctx).last_reconstruction == old(ctx).last_reconstruction,
{
    let blob = encode_state(&m);
    ctx.working = m;
    ctx.cached_blob = Some(clone_bytes(&blob));
    blob
}

/// Save, fallback half: when the backup save failed and the map is
/// non-empty, one `server_snapshot` event is published as the weaker
/// fallback signal; an empty map is never announced, to keep the log
/// free of empty-state noise.
pub fn save_fallback_event(
    m: &PlayerMap,
    backup_ok: bool,
    runtime: &Vec<u8>,
    castle: &Vec<u8>,
    game_id: &Vec<u8>,
    ts: u64,
) -> (r: Option<GameEvent>)
    ensures
        backup_ok ==> r is None,
        m@ == Map::<Seq<u8>, PlayerModel>::empty() ==> r is None,
        (!backup_ok && m@ != Map::<Seq<u8>, PlayerModel>::empty()) ==> (r matches Some(e) && {
            &&& e@.kind == EventKind::ServerSnapshot
            &&& e@.runtime == runtime@
            &&& e@.castle == castle@
            &&& e@.game_id == game_id@
            &&& e@.timestamp == ts
            &&& e@.position is None
            &&& e@.direction is None
            &&& e@.score is None
        }),
{
    if backup_ok {
        return None;
    }
    if m.is_empty() {
        return None;
    }
    Some(server_snapshot_event(runtime, castle, game_id, ts))
}

/// Law (fallback ordering, first tier): with tier one populated, Load
/// is over at the first step — it returns the working copy verbatim,
/// whatever the other tiers hold, so no remote call is issued.
pub proof fn lemma_tier1_short_circuits(
    working: Map<Seq<u8>, PlayerModel>,
    cached: Option<Seq<u8>>,
)
    requires
        working != Map::<Seq<u8>, PlayerModel>::empty(),
    ensures
        local_load_spec(working, cached) == Some(working),
{
}

/// Law (fallback ordering, third tier): a backup blob that
/// deserializes ends the load, so the broker is never consulted.
pub proof fn lemma_backup_success_short_circuits(blob: Seq<u8>)
    requires
        parse_state_spec(blob) is Some,
    ensures
        backup_outcome_spec(BackupLoadModel::Blob(blob)) == Some(
            map_of_models(parse_state_spec(blob)->Some_0),
        ),
{
}

/// Law (rate limiting): after a reconstruction at `now1`, a second
/// attempt within the cool-down window is refused — `reconstruct_begin`
/// then returns the empty map with no fetch and no state change.
pub proof fn lemma_reconstruction_rate_limited(now1: u64, now2: u64)
    requires
        now2 - now1 < RECONSTRUCTION_COOLDOWN_MS,
    ensures
        !reconstruction_allowed(now2, now1),
{
}

} // verus!
