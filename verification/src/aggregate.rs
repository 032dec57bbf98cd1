//! The achievement aggregator.
//!
//! Games are processed one at a time, in library order. For each game the
//! caller first asks whether the cache answers (exact last-played match);
//! on a hit it records the cached summary, on a miss it performs the two
//! live sub-fetches and records whatever came back — a failed unlock-list
//! fetch skips the game, a failed percentage fetch merely loses the rarest
//! candidate. The cross-game reduction sums achieved and possible counts,
//! counts perfect games, and picks the globally rarest candidate, ties
//! broken by owning game name and then achievement name.

use vstd::prelude::*;

use crate::cache::AchievementCache;
use crate::cache::CachedAchievement;
use crate::models::Achievement;
use crate::models::AchievementStats;
use crate::models::GlobalAchievement;
use crate::models::RarestAchievement;
use crate::models::Game;
use crate::percent::Percent;
use crate::text::seq_char_lt;
use crate::text::spec_display_name;
use crate::text::str_eq;
use crate::text::str_lt;
use crate::text::to_upper;
use crate::text::upper_of;

verus! {

// ---------------------------------------------------------------------------
// The global unlock-percentage table
// ---------------------------------------------------------------------------

/// The global unlock-percentage table of one game, keyed by achievement
/// name; keys may arrive upper-cased, so lookups fall back to the
/// upper-cased key.
#[derive(Debug, Clone)]
pub struct GlobalUnlockTable {
    pub entries: Vec<GlobalAchievement>,
}

/// The percentage stored under `key`, first entry winning.
pub open spec fn spec_lookup(entries: Seq<GlobalAchievement>, key: Seq<char>) -> Option<Percent>
    decreases entries.len(),
{
    if entries.len() == 0 {
        None
    } else if entries[0].name@ == key {
        Some(entries[0].percent)
    } else {
        spec_lookup(entries.drop_first(), key)
    }
}

/// The percentage for `key`: the exact key first, then its upper-cased
/// form.
pub open spec fn spec_resolve(entries: Seq<GlobalAchievement>, key: Seq<char>) -> Option<Percent> {
    match spec_lookup(entries, key) {
        Some(p) => Some(p),
        None => spec_lookup(entries, upper_of(key)),
    }
}

impl GlobalUnlockTable {
    /// Find the percentage stored under exactly this key.
    pub fn lookup(&self, key: &str) -> (r: Option<Percent>)
        ensures
            r == spec_lookup(self.entries@, key@),
    {
        let n = self.entries.len();
        let mut j: usize = 0;
        proof {
            assert(self.entries@.skip(0) =~= self.entries@);
        }
        while j < n
            invariant
                j <= n,
                n == self.entries@.len(),
                spec_lookup(self.entries@, key@) == spec_lookup(
                    self.entries@.skip(j as int),
                    key@,
                ),
            decreases n - j,
        {
            proof {
                assert(self.entries@.skip(j as int)[0] == self.entries@[j as int]);
            }
            if str_eq(self.entries[j].name.as_str(), key) {
                return Some(self.entries[j].percent);
            }
            proof {
                assert(self.entries@.skip(j as int).drop_first() =~= self.entries@.skip(j + 1));
            }
            j += 1;
        }
        None
    }

    /// Find the percentage for a key, falling back to its upper-cased form.
    pub fn resolve(&self, key: &str) -> (r: Option<Percent>)
        ensures
            r == spec_resolve(self.entries@, key@),
    {
        match self.lookup(key) {
            Some(p) => Some(p),
            None => {
                let upper = to_upper(key);
                self.lookup(upper.as_str())
            },
        }
    }
}

// ---------------------------------------------------------------------------
// Rarest-candidate ordering
// ---------------------------------------------------------------------------

/// Strictly rarer: lower percentage first, ties broken by owning game
/// name, then by achievement name, both ascending.
pub open spec fn spec_cand_lt(a: RarestAchievement, b: RarestAchievement) -> bool {
    ||| a.percent.milli < b.percent.milli
    ||| (a.percent.milli == b.percent.milli && seq_char_lt(a.game@, b.game@))
    ||| (a.percent.milli == b.percent.milli && a.game@ == b.game@ && seq_char_lt(a.name@, b.name@))
}

/// The rarest candidate of a pool: the earliest minimum under
/// [`spec_cand_lt`]; a later candidate displaces it only when strictly
/// rarer.
pub open spec fn spec_min_candidate(s: Seq<RarestAchievement>) -> Option<RarestAchievement>
    decreases s.len(),
{
    if s.len() == 0 {
        None
    } else {
        match spec_min_candidate(s.drop_last()) {
            None => Some(s.last()),
            Some(m) => if spec_cand_lt(s.last(), m) {
                Some(s.last())
            } else {
                Some(m)
            },
        }
    }
}

/// No candidate is strictly rarer than itself.
pub proof fn lemma_cand_lt_irrefl(a: RarestAchievement)
    ensures
        !spec_cand_lt(a, a),
{
    crate::text::lemma_seq_char_lt_irrefl(a.game@);
    crate::text::lemma_seq_char_lt_irrefl(a.name@);
}

/// Strict rarity is transitive.
pub proof fn lemma_cand_lt_trans(a: RarestAchievement, b: RarestAchievement, c: RarestAchievement)
    requires
        spec_cand_lt(a, b),
        spec_cand_lt(b, c),
    ensures
        spec_cand_lt(a, c),
{
    if a.percent.milli == b.percent.milli && b.percent.milli == c.percent.milli {
        if seq_char_lt(a.game@, b.game@) && seq_char_lt(b.game@, c.game@) {
            crate::text::lemma_seq_char_lt_trans(a.game@, b.game@, c.game@);
        } else if a.game@ == b.game@ && b.game@ == c.game@ {
            if seq_char_lt(a.name@, b.name@) && seq_char_lt(b.name@, c.name@) {
                crate::text::lemma_seq_char_lt_trans(a.name@, b.name@, c.name@);
            }
        }
    }
}

/// The pool's minimum is one of its members and no member is strictly
/// rarer: with ties broken by game and name, the selection is
/// deterministic under equal percentages.
pub proof fn lemma_min_candidate_properties(s: Seq<RarestAchievement>)
    ensures
        (spec_min_candidate(s) is None) <==> s.len() == 0,
        spec_min_candidate(s) matches Some(m) ==> s.contains(m) && forall|i: int|
            0 <= i < s.len() ==> !spec_cand_lt(#[trigger] s[i], m),
    decreases s.len(),
{
    if s.len() > 0 {
        let t = s.drop_last();
        lemma_min_candidate_properties(t);
        assert(forall|i: int| 0 <= i < t.len() ==> t[i] == #[trigger] s[i]);
        match spec_min_candidate(t) {
            None => {
                assert(s.len() == 1);
                assert(s[0] == s.last());
                lemma_cand_lt_irrefl(s.last());
                assert(s.contains(s.last()));
            },
            Some(m0) => {
                let i0 = choose|i: int| 0 <= i < t.len() && t[i] == m0;
                assert(s[i0] == m0);
                if spec_cand_lt(s.last(), m0) {
                    assert(s[s.len() - 1] == s.last());
                    assert(s.contains(s.last()));
                    assert forall|i: int| 0 <= i < s.len() implies !spec_cand_lt(
                        #[trigger] s[i],
                        s.last(),
                    ) by {
                        if i < s.len() - 1 {
                            if spec_cand_lt(s[i], s.last()) {
                                lemma_cand_lt_trans(s[i], s.last(), m0);
                            }
                        } else {
                            lemma_cand_lt_irrefl(s.last());
                        }
                    }
                } else {
                    assert(s.contains(m0));
                }
            },
        }
    }
}

/// Whether `a` is strictly rarer than `b`.
pub fn cand_lt(a: &RarestAchievement, b: &RarestAchievement) -> (r: bool)
    ensures
        r == spec_cand_lt(*a, *b),
{
    if a.percent.milli < b.percent.milli {
        true
    } else if a.percent.milli == b.percent.milli {
        if str_lt(a.game.as_str(), b.game.as_str()) {
            true
        } else if str_eq(a.game.as_str(), b.game.as_str()) {
            str_lt(a.name.as_str(), b.name.as_str())
        } else {
            false
        }
    } else {
        false
    }
}

// ---------------------------------------------------------------------------
// Per-game computation
// ---------------------------------------------------------------------------

/// What one game contributes: unlocked count, total count, and its rarest
/// achieved candidate, if any.
#[derive(Debug, Clone)]
pub struct GameAchievementResult {
    pub achieved: u32,
    pub total: u32,
    pub rarest: Option<RarestAchievement>,
}

/// The live data fetched for one game on a cache miss: the player's unlock
/// list, and the global percentage table when that fetch succeeded too.
#[derive(Debug, Clone)]
pub struct FetchedGameData {
    pub achievements: Vec<Achievement>,
    pub globals: Option<GlobalUnlockTable>,
}

/// How many entries of the unlock list are achieved.
pub open spec fn spec_count_achieved(recs: Seq<Achievement>) -> nat
    decreases recs.len(),
{
    if recs.len() == 0 {
        0
    } else {
        spec_count_achieved(recs.drop_last()) + (if recs.last().achieved == 1 {
            1nat
        } else {
            0nat
        })
    }
}

/// No more entries are achieved than exist.
pub proof fn lemma_count_achieved_le_len(recs: Seq<Achievement>)
    ensures
        spec_count_achieved(recs) <= recs.len(),
    decreases recs.len(),
{
    if recs.len() > 0 {
        lemma_count_achieved_le_len(recs.drop_last());
    }
}

/// The rarest candidate one unlock-list entry yields: only achieved
/// entries whose key resolves in the table, under the entry's display name
/// (its key when it has no name) and the owning game's name.
pub open spec fn spec_entry_candidate(
    a: Achievement,
    entries: Seq<GlobalAchievement>,
    game_name: String,
) -> Option<RarestAchievement> {
    if a.achieved == 1 {
        match spec_resolve(entries, a.apiname@) {
            Some(p) => Some(
                RarestAchievement {
                    name: match a.name {
                        Some(n) => n,
                        None => a.apiname,
                    },
                    game: game_name,
                    percent: p,
                },
            ),
            None => None,
        }
    } else {
        None
    }
}

/// All rarest candidates of one unlock list, in list order.
pub open spec fn spec_candidates(
    recs: Seq<Achievement>,
    entries: Seq<GlobalAchievement>,
    game_name: String,
) -> Seq<RarestAchievement>
    decreases recs.len(),
{
    if recs.len() == 0 {
        Seq::empty()
    } else {
        let rest = spec_candidates(recs.drop_last(), entries, game_name);
        match spec_entry_candidate(recs.last(), entries, game_name) {
            Some(c) => rest.push(c),
            None => rest,
        }
    }
}

/// The rarest achieved candidate of one unlock list.
pub open spec fn spec_game_rarest(
    recs: Seq<Achievement>,
    entries: Seq<GlobalAchievement>,
    game_name: String,
) -> Option<RarestAchievement> {
    spec_min_candidate(spec_candidates(recs, entries, game_name))
}

/// The table's entries, an absent table reading as empty.
pub open spec fn spec_table(globals: Option<GlobalUnlockTable>) -> Seq<GlobalAchievement> {
    match globals {
        Some(t) => t.entries@,
        None => Seq::empty(),
    }
}

/// Duplicate an achievement's display name: its own name, else its key.
fn entry_display_name(a: &Achievement) -> (r: String)
    ensures
        r == (match a.name {
            Some(n) => n,
            None => a.apiname,
        }),
{
    match &a.name {
        Some(n) => n.clone(),
        None => a.apiname.clone(),
    }
}

/// Reduce one game's unlock list and percentage table to its contribution:
/// how many entries are achieved, how many exist, and the rarest achieved
/// candidate whose key resolves in the table.
pub fn compute_game_result(
    achievements: &Vec<Achievement>,
    globals: Option<&GlobalUnlockTable>,
    game_name: &String,
) -> (r: GameAchievementResult)
    requires
        achievements@.len() <= u32::MAX,
    ensures
        r.achieved == spec_count_achieved(achievements@),
        r.total == achievements@.len(),
        r.rarest == spec_game_rarest(
            achievements@,
            match globals {
                Some(t) => t.entries@,
                None => Seq::empty(),
            },
            *game_name,
        ),
{
    let ghost entries = match globals {
        Some(t) => t.entries@,
        None => Seq::<GlobalAchievement>::empty(),
    };
    let n = achievements.len();
    let mut achieved: u32 = 0;
    let mut cands: Vec<RarestAchievement> = Vec::new();
    let mut i: usize = 0;
    proof {
        assert(achievements@.take(0) =~= Seq::<Achievement>::empty());
    }
    while i < n
        invariant
            i <= n,
            n == achievements@.len(),
            n <= u32::MAX,
            entries == (match globals {
                Some(t) => t.entries@,
                None => Seq::<GlobalAchievement>::empty(),
            }),
            achieved == spec_count_achieved(achievements@.take(i as int)),
            cands@ == spec_candidates(achievements@.take(i as int), entries, *game_name),
        decreases n - i,
    {
        let a = &achievements[i];
        proof {
            lemma_count_achieved_le_len(achievements@.take(i as int));
            assert(achievements@.take(i + 1).drop_last() =~= achievements@.take(i as int));
            assert(achievements@.take(i + 1).last() == achievements@[i as int]);
        }
        if a.achieved == 1 {
            achieved += 1;
            let resolved = match globals {
                Some(t) => t.resolve(a.apiname.as_str()),
                None => None,
            };
            match resolved {
                Some(percent) => {
                    let name = entry_display_name(a);
                    cands.push(RarestAchievement { name, game: game_name.clone(), percent });
                },
                None => {},
            }
        }
        i += 1;
    }
    proof {
        assert(achievements@.take(n as int) =~= achievements@);
    }
    let rarest = min_candidate(&cands);
    GameAchievementResult { achieved, total: n as u32, rarest }
}

/// Pick the pool's rarest candidate, the earliest minimum winning ties.
fn min_candidate(cands: &Vec<RarestAchievement>) -> (r: Option<RarestAchievement>)
    ensures
        r == spec_min_candidate(cands@),
{
    let n = cands.len();
    if n == 0 {
        return None;
    }
    let mut best: usize = 0;
    let mut i: usize = 1;
    proof {
        assert(cands@.take(1).drop_last() =~= Seq::<RarestAchievement>::empty());
        assert(cands@.take(1).last() == cands@[0]);
        assert(spec_min_candidate(Seq::<RarestAchievement>::empty()) is None);
        assert(spec_min_candidate(cands@.take(1)) == Some(cands@[0]));
    }
    while i < n
        invariant
            1 <= i <= n,
            best < i,
            n == cands@.len(),
            spec_min_candidate(cands@.take(i as int)) == Some(cands@[best as int]),
        decreases n - i,
    {
        proof {
            assert(cands@.take(i + 1).drop_last() =~= cands@.take(i as int));
            assert(cands@.take(i + 1).last() == cands@[i as int]);
        }
        if cand_lt(&cands[i], &cands[best]) {
            best = i;
        }
        i += 1;
    }
    proof {
        assert(cands@.take(n as int) =~= cands@);
    }
    Some(cands[best].duplicate())
}

impl RarestAchievement {
    /// An equal copy of this candidate.
    pub fn duplicate(&self) -> (r: Self)
        ensures
            r == *self,
    {
        RarestAchievement {
            name: self.name.clone(),
            game: self.game.clone(),
            percent: self.percent,
        }
    }
}

// ---------------------------------------------------------------------------
// Saturating accumulators
// ---------------------------------------------------------------------------

/// Addition capped at the accumulator's maximum.
pub open spec fn sat_add_u32(a: u32, b: u32) -> u32 {
    if a + b > u32::MAX {
        u32::MAX
    } else {
        (a + b) as u32
    }
}

/// Saturation is the identity when nothing is added: a game that
/// contributes nothing leaves an accumulator unchanged.
pub proof fn lemma_sat_add_zero(a: u32)
    ensures
        sat_add_u32(a, 0) == a,
{
}

/// Add, capping at the maximum.
fn sat_add(a: u32, b: u32) -> (r: u32)
    ensures
        r == sat_add_u32(a, b),
{
    if a > u32::MAX - b {
        u32::MAX
    } else {
        a + b
    }
}

/// The perfect-game count after one more game: it rises exactly when the
/// game has achievements and all of them are achieved.
pub open spec fn spec_perfect_bump(perfect: u32, achieved: u32, total: u32) -> u32 {
    if total > 0 && achieved == total {
        sat_add_u32(perfect, 1)
    } else {
        perfect
    }
}

/// A game with no achievements never counts as perfect, whatever its
/// achieved count.
pub proof fn lemma_zero_total_never_perfect(perfect: u32, achieved: u32)
    ensures
        spec_perfect_bump(perfect, achieved, 0) == perfect,
{
}

// ---------------------------------------------------------------------------
// The aggregator
// ---------------------------------------------------------------------------

/// The running state of one aggregation pass over the library.
pub struct Aggregator {
    /// The cache, consulted before each game and refreshed on each miss.
    pub cache: AchievementCache,
    /// Achieved achievements summed across games, capped.
    pub total_achieved: u32,
    /// Possible achievements summed across games, capped.
    pub total_possible: u32,
    /// Games with every achievement achieved and at least one achievement.
    pub perfect_games: u32,
    /// One rarest candidate per game that produced one.
    pub candidates: Vec<RarestAchievement>,
    /// Games answered from the cache.
    pub cached_count: u32,
    /// Games that went to the network.
    pub fetched_count: u32,
}

/// The aggregate the final state denotes: absent when no game contributed
/// a single possible achievement, else the summed counts and the rarest
/// candidate of the pool.
pub open spec fn spec_finish(agg: Aggregator) -> Option<AchievementStats> {
    if agg.total_possible > 0 {
        Some(
            AchievementStats {
                total_achieved: agg.total_achieved,
                total_possible: agg.total_possible,
                perfect_games: agg.perfect_games,
                rarest: spec_min_candidate(agg.candidates@),
            },
        )
    } else {
        None
    }
}

/// When every game contributed zero possible achievements, the aggregate
/// is absent rather than a zeroed record.
pub proof fn lemma_empty_aggregate_absent(agg: Aggregator)
    ensures
        (spec_finish(agg) is None) <==> agg.total_possible == 0,
{
}

impl Aggregator {
    /// Begin a pass with this cache and nothing recorded.
    pub fn begin(cache: AchievementCache) -> (r: Self)
        ensures
            r.cache == cache,
            r.total_achieved == 0,
            r.total_possible == 0,
            r.perfect_games == 0,
            r.candidates@ =~= Seq::<RarestAchievement>::empty(),
            r.cached_count == 0,
            r.fetched_count == 0,
    {
        Aggregator {
            cache,
            total_achieved: 0,
            total_possible: 0,
            perfect_games: 0,
            candidates: Vec::new(),
            cached_count: 0,
            fetched_count: 0,
        }
    }

    /// Whether this game's cache entry is missing or stale, so that a live
    /// fetch is needed.
    pub fn needs_fetch(&self, game: &Game) -> (r: bool)
        ensures
            r == !(self.cache@.contains_key(game.appid) && self.cache@[game.appid].last_played
                == game.rtime_last_played),
    {
        match self.cache.get(game.appid, game.rtime_last_played) {
            Some(_) => false,
            None => true,
        }
    }

    /// Record a game answered by a valid cache entry: its cached counts
    /// join the totals, and its cached rarest achievement, when both its
    /// name and percentage were stored, joins the candidate pool under
    /// this game's display name.
    pub fn record_cached(&mut self, game: &Game, game_name: String)
        requires
            old(self).cache@.contains_key(game.appid),
            old(self).cache@[game.appid].last_played == game.rtime_last_played,
            game_name@ == spec_display_name(game.name, game.appid),
        ensures
            ({
                let entry = old(self).cache@[game.appid];
                &&& final(self).cache@ == old(self).cache@
                &&& final(self).total_achieved == sat_add_u32(
                    old(self).total_achieved,
                    entry.achieved,
                )
                &&& final(self).total_possible == sat_add_u32(
                    old(self).total_possible,
                    entry.total,
                )
                &&& final(self).perfect_games == spec_perfect_bump(
                    old(self).perfect_games,
                    entry.achieved,
                    entry.total,
                )
                &&& final(self).candidates@ == (match (entry.rarest_name, entry.rarest_percent) {
                    (Some(n), Some(p)) => old(self).candidates@.push(
                        RarestAchievement { name: n, game: game_name, percent: p },
                    ),
                    _ => old(self).candidates@,
                })
                &&& final(self).cached_count == sat_add_u32(old(self).cached_count, 1)
                &&& final(self).fetched_count == old(self).fetched_count
            }),
    {
        let (achieved, total, rarest) = match self.cache.get(game.appid, game.rtime_last_played) {
            Some(entry) => (
                entry.achieved,
                entry.total,
                match (&entry.rarest_name, &entry.rarest_percent) {
                    (Some(n), Some(p)) => Some((n.clone(), *p)),
                    _ => None,
                },
            ),
            None => (0, 0, None),  // unreachable under the requires
        };
        self.total_achieved = sat_add(self.total_achieved, achieved);
        self.total_possible = sat_add(self.total_possible, total);
        if total > 0 && achieved == total {
            self.perfect_games = sat_add(self.perfect_games, 1);
        }
        match rarest {
            Some((n, p)) => {
                self.candidates.push(RarestAchievement { name: n, game: game_name, percent: p });
            },
            None => {},
        }
        self.cached_count = sat_add(self.cached_count, 1);
    }

    /// Record a game that went to the network. A missing unlock list (the
    /// player-achievements fetch failed) skips the game entirely. With an
    /// unlock list, the game's counts join the totals, a fresh cache entry
    /// is stored under the game's current last-played timestamp — even
    /// when both counts are zero — and its rarest candidate, if any, joins
    /// the pool.
    pub fn record_fetched(&mut self, game: &Game, game_name: String, fetched: Option<
        FetchedGameData,
    >)
        requires
            !(old(self).cache@.contains_key(game.appid) && old(self).cache@[
                game.appid].last_played == game.rtime_last_played),
            game_name@ == spec_display_name(game.name, game.appid),
            fetched matches Some(data) ==> data.achievements@.len() <= u32::MAX,
        ensures
            final(self).fetched_count == sat_add_u32(old(self).fetched_count, 1),
            final(self).cached_count == old(self).cached_count,
            fetched is None ==> {
                &&& final(self).cache@ == old(self).cache@
                &&& final(self).total_achieved == old(self).total_achieved
                &&& final(self).total_possible == old(self).total_possible
                &&& final(self).perfect_games == old(self).perfect_games
                &&& final(self).candidates@ == old(self).candidates@
            },
            fetched matches Some(data) ==> {
                let achieved = spec_count_achieved(data.achievements@) as u32;
                let total = data.achievements@.len() as u32;
                let rarest = spec_game_rarest(
                    data.achievements@,
                    spec_table(data.globals),
                    game_name,
                );
                &&& final(self).total_achieved == sat_add_u32(old(self).total_achieved, achieved)
                &&& final(self).total_possible == sat_add_u32(old(self).total_possible, total)
                &&& final(self).perfect_games == spec_perfect_bump(
                    old(self).perfect_games,
                    achieved,
                    total,
                )
                &&& final(self).cache@ == old(self).cache@.insert(
                    game.appid,
                    CachedAchievement {
                        last_played: game.rtime_last_played,
                        achieved,
                        total,
                        rarest_name: match rarest {
                            Some(c) => Some(c.name),
                            None => None,
                        },
                        rarest_percent: match rarest {
                            Some(c) => Some(c.percent),
                            None => None,
                        },
                    },
                )
                &&& final(self).candidates@ == (match rarest {
                    Some(c) => old(self).candidates@.push(c),
                    None => old(self).candidates@,
                })
            },
    {
        self.fetched_count = sat_add(self.fetched_count, 1);
        match fetched {
            None => {},
            Some(data) => {
                let result = compute_game_result(
                    &data.achievements,
                    match &data.globals {
                        Some(t) => Some(t),
                        None => None,
                    },
                    &game_name,
                );
                self.total_achieved = sat_add(self.total_achieved, result.achieved);
                self.total_possible = sat_add(self.total_possible, result.total);
                if result.total > 0 && result.achieved == result.total {
                    self.perfect_games = sat_add(self.perfect_games, 1);
                }
                let rarest_for_cache = match &result.rarest {
                    Some(c) => Some((c.name.clone(), c.percent)),
                    None => None,
                };
                self.cache.set(
                    game.appid,
                    game.rtime_last_played,
                    result.achieved,
                    result.total,
                    rarest_for_cache,
                );
                match result.rarest {
                    Some(c) => {
                        self.candidates.push(c);
                    },
                    None => {},
                }
            },
        }
    }

    /// End the pass: hand back the refreshed cache, and the aggregate when
    /// any game contributed a possible achievement.
    pub fn finish(self) -> (r: (AchievementCache, Option<AchievementStats>))
        ensures
            r.0 == self.cache,
            r.1 == spec_finish(self),
    {
        let stats = if self.total_possible > 0 {
            Some(
                AchievementStats {
                    total_achieved: self.total_achieved,
                    total_possible: self.total_possible,
                    perfect_games: self.perfect_games,
                    rarest: min_candidate(&self.candidates),
                },
            )
        } else {
            None
        };
        (self.cache, stats)
    }
}

} // verus!
