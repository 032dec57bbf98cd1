//! The persistent achievement cache: a mapping from game identifier to the
//! last-known achievement summary, keyed for validity by the game's
//! last-played timestamp.
//!
//! Reading and writing the backing file is the caller's business; this
//! module holds the mapping itself and its validity rule: an entry answers
//! a lookup only when the timestamp asked about exactly equals the one the
//! entry was stored with.

use std::collections::HashMap;
use vstd::prelude::*;

use crate::text::clone_opt_string;
use crate::percent::Percent;

verus! {

broadcast use vstd::std_specs::hash::group_hash_axioms;

/// The cached achievement summary of one game.
#[derive(Debug, Clone)]
pub struct CachedAchievement {
    pub last_played: u64,
    pub achieved: u32,
    pub total: u32,
    pub rarest_name: Option<String>,
    pub rarest_percent: Option<Percent>,
}

impl CachedAchievement {
    /// An equal copy of this entry.
    pub fn duplicate(&self) -> (r: Self)
        ensures
            r == *self,
    {
        CachedAchievement {
            last_played: self.last_played,
            achieved: self.achieved,
            total: self.total,
            rarest_name: clone_opt_string(&self.rarest_name),
            rarest_percent: self.rarest_percent,
        }
    }
}

/// The cache: one entry per game identifier.
#[derive(Debug)]
pub struct AchievementCache {
    games: HashMap<u32, CachedAchievement>,
}

impl View for AchievementCache {
    type V = Map<u32, CachedAchievement>;

    closed spec fn view(&self) -> Map<u32, CachedAchievement> {
        self.games@
    }
}

/// The mapping a sequence of entries builds up, later entries winning.
pub open spec fn map_of_entries(s: Seq<(u32, CachedAchievement)>) -> Map<u32, CachedAchievement>
    decreases s.len(),
{
    if s.len() == 0 {
        Map::empty()
    } else {
        map_of_entries(s.drop_last()).insert(s.last().0, s.last().1)
    }
}

impl AchievementCache {
    /// An empty cache.
    pub fn new() -> (r: Self)
        ensures
            r@ == Map::<u32, CachedAchievement>::empty(),
    {
        AchievementCache { games: HashMap::new() }
    }

    /// The cache a list of stored entries denotes; later duplicates win.
    pub fn from_entries(entries: &Vec<(u32, CachedAchievement)>) -> (r: Self)
        ensures
            r@ == map_of_entries(entries@),
    {
        let mut cache = AchievementCache::new();
        let mut i: usize = 0;
        proof {
            assert(entries@.take(0) =~= Seq::<(u32, CachedAchievement)>::empty());
        }
        while i < entries.len()
            invariant
                i <= entries@.len(),
                cache@ == map_of_entries(entries@.take(i as int)),
            decreases entries@.len() - i,
        {
            let pair = &entries[i];
            cache.games.insert(pair.0, pair.1.duplicate());
            proof {
                assert(entries@.take(i + 1).drop_last() =~= entries@.take(i as int));
                assert(entries@.take(i + 1).last() == entries@[i as int]);
            }
            i += 1;
        }
        proof {
            assert(entries@.take(entries@.len() as int) =~= entries@);
        }
        cache
    }

    /// How many games have an entry.
    pub fn len(&self) -> (r: usize)
        ensures
            r == self@.dom().len(),
    {
        self.games.len()
    }

    /// Look up the entry for a game, valid only for the exact last-played
    /// timestamp it was stored with.
    pub fn get(&self, appid: u32, last_played: u64) -> (r: Option<&CachedAchievement>)
        ensures
            r matches Some(c) ==> self@.contains_key(appid) && *c == self@[appid]
                && c.last_played == last_played,
            r is None ==> !self@.contains_key(appid) || self@[appid].last_played != last_played,
            (r is Some) == (self@.contains_key(appid) && self@[appid].last_played == last_played),
    {
        match self.games.get(&appid) {
            Some(c) => {
                if c.last_played == last_played {
                    Some(c)
                } else {
                    None
                }
            },
            None => None,
        }
    }

    /// Store a fresh entry for a game, replacing any earlier one.
    pub fn set(
        &mut self,
        appid: u32,
        last_played: u64,
        achieved: u32,
        total: u32,
        rarest: Option<(String, Percent)>,
    )
        ensures
            final(self)@ == old(self)@.insert(
                appid,
                CachedAchievement {
                    last_played,
                    achieved,
                    total,
                    rarest_name: match rarest {
                        Some((n, _)) => Some(n),
                        None => None,
                    },
                    rarest_percent: match rarest {
                        Some((_, p)) => Some(p),
                        None => None,
                    },
                },
            ),
    {
        let (rarest_name, rarest_percent) = match rarest {
            Some((n, p)) => (Some(n), Some(p)),
            None => (None, None),
        };
        self.games.insert(
            appid,
            CachedAchievement { last_played, achieved, total, rarest_name, rarest_percent },
        );
    }

    /// Every entry of the cache, each game exactly once, in no fixed order.
    ///
    /// Relies on `HashMap::iter`, which visits each stored entry exactly
    /// once, and on `Clone` yielding an equal entry.
    #[verifier::external_body]
    pub fn entries(&self) -> (r: Vec<(u32, CachedAchievement)>)
        ensures
            r@.len() == self@.dom().len(),
            forall|i: int|
                0 <= i < r@.len() ==> self@.contains_key(#[trigger] r@[i].0) && self@[r@[i].0]
                    == r@[i].1,
            forall|i: int, j: int| 0 <= i < j < r@.len() ==> r@[i].0 != r@[j].0,
            forall|k: u32| self@.contains_key(k) ==> exists|i: int|
                0 <= i < r@.len() && (#[trigger] r@[i]).0 == k,
    {
        self.games.iter().map(|(k, v)| (*k, v.clone())).collect()
    }
}

/// A stored entry answers a later lookup exactly for the timestamp it was
/// stored with: after a store for a game, the cache's validity condition
/// holds of a timestamp if and only if it equals the stored one.
pub proof fn lemma_store_then_lookup(
    m: Map<u32, CachedAchievement>,
    appid: u32,
    entry: CachedAchievement,
    t: u64,
)
    ensures
        ({
            let m2 = m.insert(appid, entry);
            (m2.contains_key(appid) && m2[appid].last_played == t) <==> t == entry.last_played
        }),
{
}

/// A store for one game leaves every other game's lookup untouched.
pub proof fn lemma_store_other_game_unchanged(
    m: Map<u32, CachedAchievement>,
    appid: u32,
    entry: CachedAchievement,
    other: u32,
)
    requires
        other != appid,
    ensures
        ({
            let m2 = m.insert(appid, entry);
            &&& m2.contains_key(other) == m.contains_key(other)
            &&& m.contains_key(other) ==> m2[other] == m[other]
        }),
{
}

} // verus!
