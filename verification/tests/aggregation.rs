use steamfetch::aggregate::compute_game_result;
use steamfetch::aggregate::Aggregator;
use steamfetch::aggregate::FetchedGameData;
use steamfetch::aggregate::GlobalUnlockTable;
use steamfetch::cache::AchievementCache;
use steamfetch::models::Achievement;
use steamfetch::models::Game;
use steamfetch::models::GlobalAchievement;
use steamfetch::percent::parse_percent;
use steamfetch::percent::Percent;

fn game(appid: u32, name: &str, last_played: u64) -> Game {
    Game {
        appid,
        name: Some(name.to_string()),
        playtime_forever: 0,
        playtime_2weeks: 0,
        rtime_last_played: last_played,
    }
}

fn achievement(key: &str, achieved: bool) -> Achievement {
    Achievement {
        apiname: key.to_string(),
        achieved: if achieved { 1 } else { 0 },
        name: None,
    }
}

#[test]
fn rarest_selection_picks_the_lowest_percent() {
    // Achieved entries with percentages [5.0, 5.0, 1.2] across games
    // ["B", "A", "A"], names ["x", "y", "z"]: the winner is 1.2.
    let mut cache = AchievementCache::new();
    cache.set(10, 0, 1, 2, Some(("x".to_string(), Percent { milli: 5000 })));
    cache.set(11, 0, 1, 2, Some(("y".to_string(), Percent { milli: 5000 })));
    cache.set(12, 0, 1, 2, Some(("z".to_string(), Percent { milli: 1200 })));

    let mut agg = Aggregator::begin(cache);
    let b = game(10, "B", 0);
    let a1 = game(11, "A", 0);
    let a2 = game(12, "A", 0);
    assert!(!agg.needs_fetch(&b));
    agg.record_cached(&b, "B".to_string());
    agg.record_cached(&a1, "A".to_string());
    agg.record_cached(&a2, "A".to_string());

    let (_, stats) = agg.finish();
    let rarest = stats.unwrap().rarest.unwrap();
    assert_eq!(rarest.percent, Percent { milli: 1200 });
    assert_eq!(rarest.game, "A");
    assert_eq!(rarest.name, "z");
}

#[test]
fn rarest_tie_resolves_by_game_name() {
    // A tie at 5.0 between games "B" and "A" resolves to game "A".
    let mut cache = AchievementCache::new();
    cache.set(10, 0, 1, 2, Some(("x".to_string(), Percent { milli: 5000 })));
    cache.set(11, 0, 1, 2, Some(("y".to_string(), Percent { milli: 5000 })));

    let mut agg = Aggregator::begin(cache);
    agg.record_cached(&game(10, "B", 0), "B".to_string());
    agg.record_cached(&game(11, "A", 0), "A".to_string());

    let (_, stats) = agg.finish();
    let rarest = stats.unwrap().rarest.unwrap();
    assert_eq!(rarest.percent, Percent { milli: 5000 });
    assert_eq!(rarest.game, "A");
    assert_eq!(rarest.name, "y");
}

#[test]
fn rarest_tie_within_a_game_resolves_by_achievement_name() {
    let table = GlobalUnlockTable {
        entries: vec![
            GlobalAchievement { name: "k1".to_string(), percent: Percent { milli: 5000 } },
            GlobalAchievement { name: "k2".to_string(), percent: Percent { milli: 5000 } },
        ],
    };
    let achievements = vec![achievement("k2", true), achievement("k1", true)];
    let result = compute_game_result(&achievements, Some(&table), &"G".to_string());
    let rarest = result.rarest.unwrap();
    assert_eq!(rarest.name, "k1");
}

#[test]
fn perfect_games_require_a_nonzero_total() {
    let mut cache = AchievementCache::new();
    cache.set(1, 0, 3, 3, None); // perfect
    cache.set(2, 0, 0, 0, None); // empty: never perfect
    cache.set(3, 0, 2, 5, None); // incomplete

    let mut agg = Aggregator::begin(cache);
    agg.record_cached(&game(1, "One", 0), "One".to_string());
    agg.record_cached(&game(2, "Two", 0), "Two".to_string());
    agg.record_cached(&game(3, "Three", 0), "Three".to_string());

    let (_, stats) = agg.finish();
    let stats = stats.unwrap();
    assert_eq!(stats.perfect_games, 1);
    assert_eq!(stats.total_achieved, 5);
    assert_eq!(stats.total_possible, 8);
}

#[test]
fn all_zero_totals_leave_the_aggregate_absent() {
    let mut cache = AchievementCache::new();
    cache.set(1, 0, 0, 0, None);
    cache.set(2, 0, 0, 0, None);

    let mut agg = Aggregator::begin(cache);
    agg.record_cached(&game(1, "One", 0), "One".to_string());
    agg.record_cached(&game(2, "Two", 0), "Two".to_string());

    let (_, stats) = agg.finish();
    assert!(stats.is_none());
}

#[test]
fn end_to_end_blend_of_cache_and_live_data() {
    // Three games: two valid cache entries (5/10 and 3/3) and one miss
    // whose live fetch returns 2/5. Expected: achieved=10, total=18,
    // perfect_games=1, exactly one live fetch pair, three cache entries.
    let mut cache = AchievementCache::new();
    cache.set(1, 100, 5, 10, None);
    cache.set(2, 200, 3, 3, None);

    let g1 = game(1, "First", 100);
    let g2 = game(2, "Second", 200);
    let g3 = game(3, "Third", 300);

    let mut agg = Aggregator::begin(cache);
    let mut live_fetches = 0u32;

    for g in [&g1, &g2, &g3] {
        if agg.needs_fetch(g) {
            live_fetches += 1;
            let achievements = vec![
                achievement("a1", true),
                achievement("a2", true),
                achievement("a3", false),
                achievement("a4", false),
                achievement("a5", false),
            ];
            let data = FetchedGameData { achievements, globals: None };
            agg.record_fetched(g, g.name.clone().unwrap(), Some(data));
        } else {
            agg.record_cached(g, g.name.clone().unwrap());
        }
    }

    assert_eq!(live_fetches, 1);
    assert_eq!(agg.cached_count, 2);
    assert_eq!(agg.fetched_count, 1);

    let (cache, stats) = agg.finish();
    let stats = stats.unwrap();
    assert_eq!(stats.total_achieved, 10);
    assert_eq!(stats.total_possible, 18);
    assert_eq!(stats.perfect_games, 1);
    assert_eq!(cache.len(), 3);
    let fresh = cache.get(3, 300).unwrap();
    assert_eq!(fresh.achieved, 2);
    assert_eq!(fresh.total, 5);
}

#[test]
fn failed_unlock_fetch_skips_the_game_and_writes_no_entry() {
    let cache = AchievementCache::new();
    let g = game(9, "Gone", 50);
    let mut agg = Aggregator::begin(cache);
    assert!(agg.needs_fetch(&g));
    agg.record_fetched(&g, "Gone".to_string(), None);
    assert_eq!(agg.fetched_count, 1);
    let (cache, stats) = agg.finish();
    assert!(stats.is_none());
    assert_eq!(cache.len(), 0);
}

#[test]
fn missing_percentage_table_loses_only_the_rarest() {
    let achievements = vec![achievement("a", true), achievement("b", false)];
    let result = compute_game_result(&achievements, None, &"G".to_string());
    assert_eq!(result.achieved, 1);
    assert_eq!(result.total, 2);
    assert!(result.rarest.is_none());
}

#[test]
fn uppercase_fallback_resolves_keys() {
    // The table holds the upper-cased key; the unlock list the lower-cased one.
    let table = GlobalUnlockTable {
        entries: vec![GlobalAchievement {
            name: "ACH_WIN".to_string(),
            percent: Percent { milli: 700 },
        }],
    };
    let achievements = vec![achievement("ach_win", true)];
    let result = compute_game_result(&achievements, Some(&table), &"G".to_string());
    let rarest = result.rarest.unwrap();
    assert_eq!(rarest.percent, Percent { milli: 700 });
    assert_eq!(rarest.name, "ach_win");

    // An exact match wins without any case folding.
    let exact = GlobalUnlockTable {
        entries: vec![GlobalAchievement {
            name: "ach_win".to_string(),
            percent: Percent { milli: 900 },
        }],
    };
    let result = compute_game_result(&achievements, Some(&exact), &"G".to_string());
    assert_eq!(result.rarest.unwrap().percent, Percent { milli: 900 });
}

#[test]
fn achievement_display_name_falls_back_to_its_key() {
    let table = GlobalUnlockTable {
        entries: vec![GlobalAchievement {
            name: "key_only".to_string(),
            percent: Percent { milli: 100 },
        }],
    };
    let mut named = achievement("key_only", true);
    named.name = Some("Shiny".to_string());
    let result = compute_game_result(&vec![named], Some(&table), &"G".to_string());
    assert_eq!(result.rarest.unwrap().name, "Shiny");

    let bare = achievement("key_only", true);
    let result = compute_game_result(&vec![bare], Some(&table), &"G".to_string());
    assert_eq!(result.rarest.unwrap().name, "key_only");
}

#[test]
fn percent_accepts_both_number_and_string_forms() {
    // The endpoint reports percentages as numbers or numeric strings; both
    // arrive as numeral text.
    assert_eq!(parse_percent("5.3"), Some(Percent { milli: 5300 }));
    assert_eq!(parse_percent("87"), Some(Percent { milli: 87000 }));
    assert_eq!(parse_percent("0.1"), Some(Percent { milli: 100 }));
    assert_eq!(
        parse_percent("5.30000019073486328125"),
        Some(Percent { milli: 5300 })
    );
    assert_eq!(parse_percent("100.0"), Some(Percent { milli: 100000 }));
}

#[test]
fn percent_rejects_malformed_numerals() {
    assert_eq!(parse_percent(""), None);
    assert_eq!(parse_percent("."), None);
    assert_eq!(parse_percent("5."), None);
    assert_eq!(parse_percent(".5"), None);
    assert_eq!(parse_percent("1e3"), None);
    assert_eq!(parse_percent("-1"), None);
    assert_eq!(parse_percent("4.2.1"), None);
    assert_eq!(parse_percent("abc"), None);
}
