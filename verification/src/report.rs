//! The stats assembler: library-wide figures, the top-played list, and the
//! final report.

use vstd::prelude::*;

use crate::text::clone_opt_string;
use crate::aggregate::sat_add_u32;
use crate::models::AchievementStats;
use crate::models::Game;
use crate::models::GameStat;
use crate::models::OwnedGamesData;
use crate::models::SteamStats;
use crate::text::display_name;
use crate::text::spec_display_name;

verus! {

/// How many entries the top-played list holds.
pub const TOP_GAMES_COUNT: usize = 5;

impl Game {
    /// An equal copy of this game.
    pub fn duplicate(&self) -> (r: Self)
        ensures
            r == *self,
    {
        Game {
            appid: self.appid,
            name: clone_opt_string(&self.name),
            playtime_forever: self.playtime_forever,
            playtime_2weeks: self.playtime_2weeks,
            rtime_last_played: self.rtime_last_played,
        }
    }
}

// ---------------------------------------------------------------------------
// Library-wide counts
// ---------------------------------------------------------------------------

/// How many games were never played at all.
pub open spec fn spec_count_unplayed(s: Seq<Game>) -> nat
    decreases s.len(),
{
    if s.len() == 0 {
        0
    } else {
        spec_count_unplayed(s.drop_last()) + (if s.last().playtime_forever == 0 {
            1nat
        } else {
            0nat
        })
    }
}

/// No more games are unplayed than exist.
pub proof fn lemma_count_unplayed_le_len(s: Seq<Game>)
    ensures
        spec_count_unplayed(s) <= s.len(),
    decreases s.len(),
{
    if s.len() > 0 {
        lemma_count_unplayed_le_len(s.drop_last());
    }
}

/// Count the games with zero total playtime.
pub fn count_unplayed(games: &Vec<Game>) -> (r: u32)
    requires
        games@.len() <= u32::MAX,
    ensures
        r == spec_count_unplayed(games@),
{
    let n = games.len();
    let mut count: u32 = 0;
    let mut i: usize = 0;
    proof {
        assert(games@.take(0) =~= Seq::<Game>::empty());
    }
    while i < n
        invariant
            i <= n,
            n == games@.len(),
            n <= u32::MAX,
            count == spec_count_unplayed(games@.take(i as int)),
        decreases n - i,
    {
        proof {
            lemma_count_unplayed_le_len(games@.take(i as int));
            assert(games@.take(i + 1).drop_last() =~= games@.take(i as int));
            assert(games@.take(i + 1).last() == games@[i as int]);
        }
        if games[i].playtime_forever == 0 {
            count += 1;
        }
        i += 1;
    }
    proof {
        assert(games@.take(n as int) =~= games@);
    }
    count
}

/// Total playtime across the library, capped at the counter's maximum.
pub open spec fn spec_total_playtime(s: Seq<Game>) -> u32
    decreases s.len(),
{
    if s.len() == 0 {
        0
    } else {
        sat_add_u32(spec_total_playtime(s.drop_last()), s.last().playtime_forever)
    }
}

/// Sum every game's total playtime, capping at the counter's maximum.
pub fn total_playtime(games: &Vec<Game>) -> (r: u32)
    ensures
        r == spec_total_playtime(games@),
{
    let n = games.len();
    let mut total: u32 = 0;
    let mut i: usize = 0;
    proof {
        assert(games@.take(0) =~= Seq::<Game>::empty());
    }
    while i < n
        invariant
            i <= n,
            n == games@.len(),
            total == spec_total_playtime(games@.take(i as int)),
        decreases n - i,
    {
        proof {
            assert(games@.take(i + 1).drop_last() =~= games@.take(i as int));
            assert(games@.take(i + 1).last() == games@[i as int]);
        }
        let p = games[i].playtime_forever;
        total = if total > u32::MAX - p {
            u32::MAX
        } else {
            total + p
        };
        i += 1;
    }
    proof {
        assert(games@.take(n as int) =~= games@);
    }
    total
}

// ---------------------------------------------------------------------------
// Top games: stable descending sort by playtime
// ---------------------------------------------------------------------------

/// Insert a game into a descending-sorted sequence: it passes every game
/// with strictly more playtime and stops before the first with as little,
/// so an earlier game keeps its place against an equal later one.
pub open spec fn spec_insert_desc(x: Game, s: Seq<Game>) -> Seq<Game>
    decreases s.len(),
{
    if s.len() == 0 {
        seq![x]
    } else if x.playtime_forever < s[0].playtime_forever {
        seq![s[0]] + spec_insert_desc(x, s.drop_first())
    } else {
        seq![x] + s
    }
}

/// The library sorted by total playtime, descending, equal playtimes
/// keeping their original order.
pub open spec fn spec_sort_desc(s: Seq<Game>) -> Seq<Game>
    decreases s.len(),
{
    if s.len() == 0 {
        Seq::empty()
    } else {
        spec_insert_desc(s[0], spec_sort_desc(s.drop_first()))
    }
}

/// A sequence is sorted by playtime, descending.
pub open spec fn spec_sorted_desc(s: Seq<Game>) -> bool {
    forall|i: int, j: int|
        0 <= i < j < s.len() ==> (#[trigger] s[i]).playtime_forever
            >= (#[trigger] s[j]).playtime_forever
}

/// Every element of an insertion is the inserted game or one of the
/// sequence's own.
proof fn lemma_insert_desc_elems(x: Game, s: Seq<Game>, j: int)
    requires
        0 <= j < spec_insert_desc(x, s).len(),
    ensures
        spec_insert_desc(x, s)[j] == x || s.contains(spec_insert_desc(x, s)[j]),
    decreases s.len(),
{
    let r = spec_insert_desc(x, s);
    if s.len() == 0 {
    } else if x.playtime_forever < s[0].playtime_forever {
        if j == 0 {
            assert(s.contains(s[0]));
        } else {
            lemma_insert_desc_elems(x, s.drop_first(), j - 1);
            let e = spec_insert_desc(x, s.drop_first())[j - 1];
            assert(r[j] == e);
            if s.drop_first().contains(e) {
                let k = choose|k: int| 0 <= k < s.drop_first().len() && s.drop_first()[k] == e;
                assert(s[k + 1] == e);
                assert(s.contains(e));
            }
        }
    } else {
        if j > 0 {
            assert(r[j] == s[j - 1]);
            assert(s.contains(s[j - 1]));
        }
    }
}

/// Inserting a game keeps a descending sort sorted and grows it by one.
pub proof fn lemma_insert_desc_sorted(x: Game, s: Seq<Game>)
    requires
        spec_sorted_desc(s),
    ensures
        spec_sorted_desc(spec_insert_desc(x, s)),
        spec_insert_desc(x, s).len() == s.len() + 1,
    decreases s.len(),
{
    let r = spec_insert_desc(x, s);
    if s.len() == 0 {
    } else if x.playtime_forever < s[0].playtime_forever {
        assert(spec_sorted_desc(s.drop_first())) by {
            assert(forall|k: int|
                0 <= k < s.len() - 1 ==> (#[trigger] s.drop_first()[k]) == s[k + 1]);
        }
        lemma_insert_desc_sorted(x, s.drop_first());
        let inner = spec_insert_desc(x, s.drop_first());
        assert(forall|k: int| 0 <= k < inner.len() ==> r[k + 1] == #[trigger] inner[k]);
        // the head bounds everything that follows it
        assert forall|j: int| 1 <= j < r.len() implies s[0].playtime_forever >= (
        #[trigger] r[j]).playtime_forever by {
            lemma_insert_desc_elems(x, s.drop_first(), j - 1);
            let e = inner[j - 1];
            if e == x {
            } else {
                let k = choose|k: int| 0 <= k < s.drop_first().len() && s.drop_first()[k] == e;
                assert(s[k + 1] == e);
            }
        }
        assert forall|i: int, j: int| 0 <= i < j < r.len() implies (
        #[trigger] r[i]).playtime_forever >= (#[trigger] r[j]).playtime_forever by {
            if i > 0 {
                assert(r[i] == inner[i - 1]);
                assert(r[j] == inner[j - 1]);
            }
        }
    } else {
        // x goes in front: it bounds the whole sorted tail
        assert(forall|k: int| 0 <= k < s.len() ==> r[k + 1] == #[trigger] s[k]);
        assert forall|i: int, j: int| 0 <= i < j < r.len() implies (
        #[trigger] r[i]).playtime_forever >= (#[trigger] r[j]).playtime_forever by {
            if i == 0 {
                if j > 1 {
                    assert(s[0].playtime_forever >= s[j - 1].playtime_forever);
                }
            } else {
                assert(r[i] == s[i - 1]);
                assert(r[j] == s[j - 1]);
            }
        }
    }
}

/// Inserting a game adds exactly it to the sequence's contents.
proof fn lemma_insert_desc_multiset(x: Game, s: Seq<Game>)
    ensures
        spec_insert_desc(x, s).to_multiset() == s.to_multiset().insert(x),
    decreases s.len(),
{
    broadcast use vstd::seq_lib::group_to_multiset_ensures;
    broadcast use vstd::seq_lib::lemma_multiset_commutative;

    if s.len() == 0 {
        assert(seq![x] =~= Seq::<Game>::empty().push(x));
        assert(spec_insert_desc(x, s).to_multiset() =~= s.to_multiset().insert(x));
    } else if x.playtime_forever < s[0].playtime_forever {
        lemma_insert_desc_multiset(x, s.drop_first());
        let inner = spec_insert_desc(x, s.drop_first());
        assert(seq![s[0]] =~= Seq::<Game>::empty().push(s[0]));
        assert(s =~= seq![s[0]] + s.drop_first());
        assert((seq![s[0]] + inner).to_multiset() =~= s.to_multiset().insert(x));
    } else {
        assert(seq![x] =~= Seq::<Game>::empty().push(x));
        assert((seq![x] + s).to_multiset() =~= s.to_multiset().insert(x));
    }
}

/// The stable sort is sorted, and it holds exactly the library's games:
/// a permutation, descending by playtime, equal playtimes in their
/// original order.
pub proof fn lemma_sort_desc_sorted(s: Seq<Game>)
    ensures
        spec_sorted_desc(spec_sort_desc(s)),
        spec_sort_desc(s).len() == s.len(),
        spec_sort_desc(s).to_multiset() == s.to_multiset(),
    decreases s.len(),
{
    broadcast use vstd::seq_lib::group_to_multiset_ensures;

    if s.len() > 0 {
        lemma_sort_desc_sorted(s.drop_first());
        lemma_insert_desc_sorted(s[0], spec_sort_desc(s.drop_first()));
        lemma_insert_desc_multiset(s[0], spec_sort_desc(s.drop_first()));
        assert(s =~= s.drop_first().insert(0, s[0]));
        assert(s.drop_first() =~= s.remove(0));
        assert(s.remove(0).to_multiset() == s.to_multiset().remove(s[0]));
        assert(s.contains(s[0]));
        assert(s.to_multiset().count(s[0]) > 0);
        assert(spec_sort_desc(s).to_multiset() =~= s.to_multiset());
    }
}

/// Inserting at the position the order picks is a plain sequence insert.
proof fn lemma_insert_desc_at(x: Game, s: Seq<Game>, j: int)
    requires
        0 <= j <= s.len(),
        forall|k: int| 0 <= k < j ==> x.playtime_forever < (#[trigger] s[k]).playtime_forever,
        j < s.len() ==> x.playtime_forever >= s[j].playtime_forever,
    ensures
        spec_insert_desc(x, s) == s.insert(j, x),
    decreases s.len(),
{
    if s.len() == 0 {
        assert(seq![x] =~= s.insert(0, x));
    } else if j == 0 {
        assert(seq![x] + s =~= s.insert(0, x));
    } else {
        assert(forall|k: int| 0 <= k < s.len() - 1 ==> (#[trigger] s.drop_first()[k]) == s[k + 1]);
        lemma_insert_desc_at(x, s.drop_first(), j - 1);
        assert(seq![s[0]] + s.drop_first().insert(j - 1, x) =~= s.insert(j, x));
    }
}

/// Insert a game into a descending-sorted list at its stable position.
fn insert_desc(acc: &mut Vec<Game>, x: Game)
    ensures
        final(acc)@ == spec_insert_desc(x, old(acc)@),
{
    let n = acc.len();
    let mut j: usize = 0;
    while j < n && acc[j].playtime_forever > x.playtime_forever
        invariant
            j <= n,
            n == acc@.len(),
            acc@ == old(acc)@,
            forall|k: int| 0 <= k < j ==> x.playtime_forever < (#[trigger] acc@[k]).playtime_forever,
        decreases n - j,
    {
        j += 1;
    }
    proof {
        lemma_insert_desc_at(x, acc@, j as int);
    }
    acc.insert(j, x);
}

/// Sort the library by total playtime, descending and stable.
pub fn sort_games_desc(games: &Vec<Game>) -> (r: Vec<Game>)
    ensures
        r@ == spec_sort_desc(games@),
{
    let n = games.len();
    let mut acc: Vec<Game> = Vec::new();
    let mut i: usize = n;
    proof {
        assert(games@.skip(n as int) =~= Seq::<Game>::empty());
    }
    while i > 0
        invariant
            i <= n,
            n == games@.len(),
            acc@ == spec_sort_desc(games@.skip(i as int)),
        decreases i,
    {
        i -= 1;
        let x = games[i].duplicate();
        proof {
            assert(games@.skip(i as int)[0] == games@[i as int]);
            assert(games@.skip(i as int).drop_first() =~= games@.skip(i + 1));
        }
        insert_desc(&mut acc, x);
    }
    proof {
        assert(games@.skip(0) =~= games@);
    }
    acc
}

/// How many entries the top-played list holds for a library of `n` games.
pub open spec fn spec_top_len(n: nat) -> nat {
    if n < 5 {
        n
    } else {
        5
    }
}

/// The top games of the library: the first five of the stable descending
/// sort by total playtime, each shown under its display name.
pub fn extract_top_games(games: &OwnedGamesData) -> (r: Vec<GameStat>)
    ensures
        ({
            let sorted = spec_sort_desc(games.games@);
            &&& r@.len() == spec_top_len(games.games@.len())
            &&& forall|i: int|
                0 <= i < r@.len() ==> (#[trigger] r@[i]).name@ == spec_display_name(
                    sorted[i].name,
                    sorted[i].appid,
                ) && r@[i].playtime_minutes == sorted[i].playtime_forever
        }),
{
    proof {
        lemma_sort_desc_sorted(games.games@);
    }
    let mut sorted = sort_games_desc(&games.games);
    if sorted.len() > TOP_GAMES_COUNT {
        sorted.truncate(TOP_GAMES_COUNT);
    }
    let ghost full = spec_sort_desc(games.games@);
    proof {
        assert(forall|k: int| 0 <= k < sorted@.len() ==> sorted@[k] == #[trigger] full[k]);
    }
    let n = sorted.len();
    let mut r: Vec<GameStat> = Vec::new();
    let mut i: usize = 0;
    while i < n
        invariant
            i <= n,
            n == sorted@.len(),
            n == spec_top_len(full.len()),
            forall|k: int| 0 <= k < n ==> sorted@[k] == #[trigger] full[k],
            r@.len() == i,
            forall|k: int|
                0 <= k < i ==> (#[trigger] r@[k]).name@ == spec_display_name(
                    full[k].name,
                    full[k].appid,
                ) && r@[k].playtime_minutes == full[k].playtime_forever,
        decreases n - i,
    {
        let g = &sorted[i];
        let name = display_name(&g.name, g.appid);
        r.push(GameStat { name, playtime_minutes: g.playtime_forever });
        i += 1;
    }
    r
}

// ---------------------------------------------------------------------------
// Recent activity
// ---------------------------------------------------------------------------

/// The recent-activity list as report entries: each game under its display
/// name, with its playtime of the last two weeks.
pub fn recent_game_stats(games: &Vec<Game>) -> (r: Vec<GameStat>)
    ensures
        r@.len() == games@.len(),
        forall|i: int|
            0 <= i < games@.len() ==> (#[trigger] r@[i]).name@ == spec_display_name(
                games@[i].name,
                games@[i].appid,
            ) && r@[i].playtime_minutes == games@[i].playtime_2weeks,
{
    let n = games.len();
    let mut r: Vec<GameStat> = Vec::new();
    let mut i: usize = 0;
    while i < n
        invariant
            i <= n,
            n == games@.len(),
            r@.len() == i,
            forall|k: int|
                0 <= k < i ==> (#[trigger] r@[k]).name@ == spec_display_name(
                    games@[k].name,
                    games@[k].appid,
                ) && r@[k].playtime_minutes == games@[k].playtime_2weeks,
        decreases n - i,
    {
        let g = &games[i];
        let name = display_name(&g.name, g.appid);
        r.push(GameStat { name, playtime_minutes: g.playtime_2weeks });
        i += 1;
    }
    r
}

// ---------------------------------------------------------------------------
// The report
// ---------------------------------------------------------------------------

/// Assemble the final report from its fetched pieces: the caller supplies
/// the identity fields, the library, and the optional figures, and this
/// computes the library-wide counts and the top-played list.
pub fn assemble_report(
    username: String,
    game_count: u32,
    games: &OwnedGamesData,
    achievement_stats: Option<AchievementStats>,
    account_created: Option<u64>,
    country: Option<String>,
    steam_level: Option<u32>,
    recently_played: Vec<GameStat>,
) -> (r: SteamStats)
    requires
        games.games@.len() <= u32::MAX,
    ensures
        r.username == username,
        r.game_count == game_count,
        r.unplayed_count == spec_count_unplayed(games.games@),
        r.total_playtime_minutes == spec_total_playtime(games.games@),
        ({
            let sorted = spec_sort_desc(games.games@);
            &&& r.top_games@.len() == spec_top_len(games.games@.len())
            &&& forall|i: int|
                0 <= i < r.top_games@.len() ==> (#[trigger] r.top_games@[i]).name@
                    == spec_display_name(sorted[i].name, sorted[i].appid)
                    && r.top_games@[i].playtime_minutes == sorted[i].playtime_forever
        }),
        r.achievement_stats == achievement_stats,
        r.account_created == account_created,
        r.country == country,
        r.steam_level == steam_level,
        r.recently_played == recently_played,
{
    let unplayed_count = count_unplayed(&games.games);
    let total_playtime_minutes = total_playtime(&games.games);
    let top_games = extract_top_games(games);
    SteamStats {
        username,
        game_count,
        unplayed_count,
        total_playtime_minutes,
        top_games,
        achievement_stats,
        account_created,
        country,
        steam_level,
        recently_played,
    }
}

} // verus!
