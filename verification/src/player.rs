//! The player data model and the authoritative player map.
//!
//! The map is the single aggregate the recovery pipeline exists to
//! produce: at most one player per id, keyed by the player's id bytes.

use vstd::prelude::*;

verus! {

/// Arena extent: coordinates are clamped to `0 ..= ARENA_MAX`.
pub const ARENA_MAX: u64 = 49;

/// Starting position of a newly joined player.
pub const START_X: u64 = 25;
pub const START_Y: u64 = 25;

/// The four cardinal directions a player can face.
#[derive(Clone, Copy, PartialEq, Eq, Structural, Debug)]
pub enum Direction {
    Up,
    Down,
    Left,
    Right,
}

/// One player's record.
pub struct Player {
    pub id: Vec<u8>,
    pub x: u64,
    pub y: u64,
    pub direction: Direction,
    pub score: u64,
    pub color: Vec<u8>,
    pub alive: bool,
}

/// Mathematical image of a player record.
pub struct PlayerModel {
    pub id: Seq<u8>,
    pub x: u64,
    pub y: u64,
    pub direction: Direction,
    pub score: u64,
    pub color: Seq<u8>,
    pub alive: bool,
}

impl View for Player {
    type V = PlayerModel;

    open spec fn view(&self) -> PlayerModel {
        PlayerModel {
            id: self.id@,
            x: self.x,
            y: self.y,
            direction: self.direction,
            score: self.score,
            color: self.color@,
            alive: self.alive,
        }
    }
}

/// A record sits inside the arena extent.
pub open spec fn in_arena(p: PlayerModel) -> bool {
    p.x <= ARENA_MAX && p.y <= ARENA_MAX
}

/// A coordinate forced into the arena extent.
pub open spec fn clamp_coord(v: u64) -> u64 {
    if v > ARENA_MAX {
        ARENA_MAX
    } else {
        v
    }
}

/// Forces a coordinate into the arena extent.
pub fn clamp_to_arena(v: u64) -> (r: u64)
    ensures
        r == clamp_coord(v),
{
    if v > ARENA_MAX {
        ARENA_MAX
    } else {
        v
    }
}

/// Byte-string copy.
pub fn clone_bytes(v: &Vec<u8>) -> (r: Vec<u8>)
    ensures
        r@ == v@,
{
    let r = v.clone();
    proof {
        assert(r@ =~= v@);
    }
    r
}

impl Player {
    /// Field-for-field copy with an exact contract.
    pub fn duplicate(&self) -> (r: Player)
        ensures
            r@ == self@,
    {
        Player {
            id: clone_bytes(&self.id),
            x: self.x,
            y: self.y,
            direction: self.direction,
            score: self.score,
            color: clone_bytes(&self.color),
            alive: self.alive,
        }
    }
}

/// Models of an entry sequence, in order.
pub open spec fn models_of(s: Seq<Player>) -> Seq<PlayerModel> {
    s.map_values(|p: Player| p@)
}

/// Map view of an entry sequence: later entries win on equal ids.
pub open spec fn map_of(s: Seq<Player>) -> Map<Seq<u8>, PlayerModel>
    decreases s.len(),
{
    if s.len() == 0 {
        Map::empty()
    } else {
        map_of(s.drop_last()).insert(s.last().id@, s.last()@)
    }
}

/// Entry ids are pairwise distinct.
pub open spec fn unique_ids(s: Seq<Player>) -> bool {
    forall|i: int, j: int| 0 <= i < j < s.len() ==> s[i].id@ != s[j].id@
}

pub proof fn lemma_map_of_contains(s: Seq<Player>, k: Seq<u8>)
    ensures
        map_of(s).contains_key(k) <==> exists|i: int| 0 <= i < s.len() && s[i].id@ == k,
    decreases s.len(),
{
    if s.len() > 0 {
        lemma_map_of_contains(s.drop_last(), k);
        if map_of(s).contains_key(k) {
            if s.last().id@ == k {
                assert(s[s.len() - 1].id@ == k);
            } else {
                let i = choose|i: int| 0 <= i < s.drop_last().len() && s.drop_last()[i].id@ == k;
                assert(s[i].id@ == k);
            }
        }
        if exists|i: int| 0 <= i < s.len() && s[i].id@ == k {
            let i = choose|i: int| 0 <= i < s.len() && s[i].id@ == k;
            if i < s.len() - 1 {
                assert(s.drop_last()[i].id@ == k);
            }
        }
    }
}

pub proof fn lemma_map_of_index(s: Seq<Player>, i: int)
    requires
        unique_ids(s),
        0 <= i < s.len(),
    ensures
        map_of(s).contains_key(s[i].id@),
        map_of(s)[s[i].id@] == s[i]@,
    decreases s.len(),
{
    if i == s.len() - 1 {
        lemma_map_of_contains(s, s[i].id@);
    } else {
        lemma_map_of_index(s.drop_last(), i);
        assert(s.drop_last()[i] == s[i]);
        assert(s.last().id@ != s[i].id@);
    }
}

pub proof fn lemma_map_of_remove(s: Seq<Player>, i: int)
    requires
        unique_ids(s),
        0 <= i < s.len(),
    ensures
        map_of(s.remove(i)) == map_of(s).remove(s[i].id@),
    decreases s.len(),
{
    let k = s[i].id@;
    if i == s.len() - 1 {
        assert(s.remove(i) =~= s.drop_last());
        lemma_map_of_contains(s.drop_last(), k);
        assert(!map_of(s.drop_last()).contains_key(k));
        assert(map_of(s.drop_last()).insert(k, s.last()@).remove(k) =~= map_of(s.drop_last()));
    } else {
        lemma_map_of_remove(s.drop_last(), i);
        assert(s.remove(i).drop_last() =~= s.drop_last().remove(i));
        assert(s.remove(i).last() == s.last());
        assert(map_of(s.remove(i)) == map_of(s.drop_last().remove(i)).insert(
            s.last().id@,
            s.last()@,
        ));
        assert(s.last().id@ != k);
        assert(map_of(s.drop_last()).remove(k).insert(s.last().id@, s.last()@)
            =~= map_of(s.drop_last()).insert(s.last().id@, s.last()@).remove(k));
    }
}

pub proof fn lemma_map_of_unique_len(s: Seq<Player>)
    requires
        unique_ids(s),
    ensures
        map_of(s).dom().finite(),
        map_of(s).len() == s.len(),
    decreases s.len(),
{
    if s.len() == 0 {
        assert(map_of(s).dom() =~= Set::<Seq<u8>>::empty());
    } else {
        lemma_map_of_unique_len(s.drop_last());
        lemma_map_of_contains(s.drop_last(), s.last().id@);
        assert(!map_of(s.drop_last()).contains_key(s.last().id@));
        assert(map_of(s).dom() =~= map_of(s.drop_last()).dom().insert(s.last().id@));
        vstd::set::axiom_set_insert_len(map_of(s.drop_last()).dom(), s.last().id@);
    }
}

/// The authoritative mapping from player id to player record.
pub struct PlayerMap {
    entries: Vec<Player>,
}

impl View for PlayerMap {
    type V = Map<Seq<u8>, PlayerModel>;

    closed spec fn view(&self) -> Map<Seq<u8>, PlayerModel> {
        map_of(self.entries@)
    }
}

impl PlayerMap {
    /// Entries in insertion order; the codec serializes in this order.
    pub closed spec fn seq_view(&self) -> Seq<Player> {
        self.entries@
    }

    #[verifier::type_invariant]
    closed spec fn wf(&self) -> bool {
        unique_ids(self.entries@)
    }

    pub fn new() -> (m: PlayerMap)
        ensures
            m@ == Map::<Seq<u8>, PlayerModel>::empty(),
            m.seq_view() == Seq::<Player>::empty(),
    {
        let m = PlayerMap { entries: Vec::new() };
        proof {
            assert(m.entries@ =~= Seq::<Player>::empty());
        }
        m
    }

    /// How many players the map holds.
    pub fn len(&self) -> (n: usize)
        ensures
            n == self@.len(),
            n == self.seq_view().len(),
            self@.dom().finite(),
    {
        proof {
            use_type_invariant(self);
            lemma_map_of_unique_len(self.entries@);
        }
        self.entries.len()
    }

    pub fn is_empty(&self) -> (b: bool)
        ensures
            b == (self@.len() == 0),
            b == (self@ == Map::<Seq<u8>, PlayerModel>::empty()),
            self@.dom().finite(),
    {
        let n = self.len();
        proof {
            if n == 0 {
                self@.dom().lemma_len0_is_empty();
                assert(self@ =~= Map::<Seq<u8>, PlayerModel>::empty());
            } else {
                broadcast use vstd::set::axiom_set_empty_len;

                assert(Map::<Seq<u8>, PlayerModel>::empty().dom() =~= Set::<Seq<u8>>::empty());
            }
        }
        n == 0
    }

    /// Index of the entry that holds `id`, if any.
    fn find_index(&self, id: &Vec<u8>) -> (r: Option<usize>)
        ensures
            match r {
                Some(i) => i < self.seq_view().len() && self.seq_view()[i as int].id@ == id@,
                None => !self@.contains_key(id@),
            },
    {
        proof {
            use_type_invariant(self);
        }
        let mut i: usize = 0;
        while i < self.entries.len()
            invariant
                i <= self.entries@.len(),
                forall|j: int| 0 <= j < i ==> self.entries@[j].id@ != id@,
        decreases self.entries.len() - i,
        {
            if crate::text::bytes_eq(&self.entries[i].id, id) {
                return Some(i);
            }
            i = i + 1;
        }
        proof {
            lemma_map_of_contains(self.entries@, id@);
        }
        None
    }

    /// Borrow the record of `id`.
    pub fn get(&self, id: &Vec<u8>) -> (r: Option<&Player>)
        ensures
            match r {
                Some(p) => self@.contains_key(id@) && self@[id@] == p@ && p.id@ == id@,
                None => !self@.contains_key(id@),
            },
    {
        proof {
            use_type_invariant(self);
        }
        match self.find_index(id) {
            Some(i) => {
                proof {
                    lemma_map_of_index(self.entries@, i as int);
                }
                Some(&self.entries[i])
            },
            None => None,
        }
    }

    pub fn contains(&self, id: &Vec<u8>) -> (b: bool)
        ensures
            b == self@.contains_key(id@),
    {
        match self.get(id) {
            Some(_) => true,
            None => false,
        }
    }

    /// Insert or overwrite the record under its id.
    pub fn insert(&mut self, p: Player)
        ensures
            final(self)@ == old(self)@.insert(p.id@, p@),
    {
        proof {
            use_type_invariant(&*self);
        }
        let idx = self.find_index(&p.id);
        let ghost before = self.entries@;
        let ghost k = p.id@;
        let mut es: Vec<Player> = Vec::new();
        core::mem::swap(&mut self.entries, &mut es);
        match idx {
            Some(i) => {
                proof {
                    lemma_map_of_remove(before, i as int);
                }
                es.remove(i);
                let ghost removed = es@;
                proof {
                    assert(unique_ids(removed)) by {
                        assert(forall|a: int|
                            0 <= a < removed.len() ==> removed[a] == (if a < i {
                                before[a]
                            } else {
                                before[a + 1]
                            }));
                    }
                    lemma_map_of_contains(removed, k);
                    assert(!map_of(removed).contains_key(k));
                }
                es.push(p);
                proof {
                    assert(es@.drop_last() =~= removed);
                    assert(forall|a: int| 0 <= a < removed.len() ==> removed[a].id@ != k);
                    assert(unique_ids(es@));
                    assert(map_of(es@) == map_of(removed).insert(k, p@));
                    assert(map_of(before).remove(k).insert(k, p@) =~= map_of(before).insert(
                        k,
                        p@,
                    ));
                }
            },
            None => {
                proof {
                    lemma_map_of_contains(before, k);
                }
                es.push(p);
                proof {
                    assert(es@.drop_last() =~= before);
                    assert(forall|a: int| 0 <= a < before.len() ==> before[a].id@ != k);
                    assert(unique_ids(es@));
                }
            },
        }
        self.entries = es;
    }

    /// Remove the record of `id`, returning it.
    pub fn remove(&mut self, id: &Vec<u8>) -> (r: Option<Player>)
        ensures
            final(self)@ == old(self)@.remove(id@),
            match r {
                Some(p) => old(self)@.contains_key(id@) && old(self)@[id@] == p@,
                None => !old(self)@.contains_key(id@),
            },
    {
        proof {
            use_type_invariant(&*self);
        }
        let idx = self.find_index(id);
        let ghost before = self.entries@;
        match idx {
            Some(i) => {
                proof {
                    lemma_map_of_index(before, i as int);
                    lemma_map_of_remove(before, i as int);
                }
                let mut es: Vec<Player> = Vec::new();
                core::mem::swap(&mut self.entries, &mut es);
                let p = es.remove(i);
                proof {
                    assert(unique_ids(es@)) by {
                        assert(forall|a: int|
                            0 <= a < es@.len() ==> es@[a] == (if a < i {
                                before[a]
                            } else {
                                before[a + 1]
                            }));
                    }
                }
                self.entries = es;
                Some(p)
            },
            None => {
                proof {
                    lemma_map_of_contains(before, id@);
                    assert(map_of(before).remove(id@) =~= map_of(before));
                }
                None
            },
        }
    }

    /// Number of serialized entries.
    pub fn entry_count(&self) -> (n: usize)
        ensures
            n == self.seq_view().len(),
    {
        self.entries.len()
    }

    /// Borrow the `i`-th entry in insertion order.
    pub fn entry_at(&self, i: usize) -> (p: &Player)
        requires
            i < self.seq_view().len(),
        ensures
            *p == self.seq_view()[i as int],
    {
        &self.entries[i]
    }

    /// Deep copy with the same contents.
    pub fn duplicate(&self) -> (r: PlayerMap)
        ensures
            r@ == self@,
            models_of(r.seq_view()) == models_of(self.seq_view()),
    {
        proof {
            use_type_invariant(self);
        }
        let mut out: Vec<Player> = Vec::new();
        let mut i: usize = 0;
        while i < self.entries.len()
            invariant
                i <= self.entries@.len(),
                out@.len() == i,
                forall|j: int| 0 <= j < i ==> out@[j]@ == self.entries@[j]@,
                forall|j: int| 0 <= j < i ==> out@[j].id@ == self.entries@[j].id@,
            decreases self.entries.len() - i,
        {
            out.push(self.entries[i].duplicate());
            i = i + 1;
        }
        let r = PlayerMap { entries: out };
        proof {
            assert(unique_ids(r.entries@));
            lemma_map_of_congruent(r.entries@, self.entries@);
            assert(models_of(r.entries@) =~= models_of(self.entries@));
        }
        r
    }
}

pub proof fn lemma_map_of_congruent(a: Seq<Player>, b: Seq<Player>)
    requires
        a.len() == b.len(),
        forall|j: int| 0 <= j < a.len() ==> a[j]@ == b[j]@,
    ensures
        map_of(a) == map_of(b),
    decreases a.len(),
{
    if a.len() > 0 {
        lemma_map_of_congruent(a.drop_last(), b.drop_last());
        assert(a.last()@ == b.last()@);
        assert(a.last().id@ == b.last().id@);
        assert(map_of(a) =~= map_of(b));
    }
}

} // verus!
