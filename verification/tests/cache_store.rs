use steamfetch::cache::AchievementCache;
use steamfetch::percent::Percent;

#[test]
fn lookup_hits_only_the_stored_timestamp() {
    let mut cache = AchievementCache::new();
    cache.set(42, 1000, 7, 12, None);

    assert!(cache.get(42, 1000).is_some());
    assert!(cache.get(42, 999).is_none());
    assert!(cache.get(42, 1001).is_none());
    assert!(cache.get(41, 1000).is_none());

    let entry = cache.get(42, 1000).unwrap();
    assert_eq!(entry.achieved, 7);
    assert_eq!(entry.total, 12);
    assert_eq!(entry.last_played, 1000);
    assert!(entry.rarest_name.is_none());
    assert!(entry.rarest_percent.is_none());
}

#[test]
fn a_fresh_store_replaces_the_old_entry() {
    let mut cache = AchievementCache::new();
    cache.set(7, 100, 1, 2, None);
    cache.set(7, 200, 3, 4, Some(("Rare".to_string(), Percent { milli: 1200 })));

    assert!(cache.get(7, 100).is_none());
    let entry = cache.get(7, 200).unwrap();
    assert_eq!(entry.achieved, 3);
    assert_eq!(entry.total, 4);
    assert_eq!(entry.rarest_name.as_deref(), Some("Rare"));
    assert_eq!(entry.rarest_percent, Some(Percent { milli: 1200 }));
    assert_eq!(cache.len(), 1);
}

#[test]
fn entries_round_trip_through_a_listing() {
    let mut cache = AchievementCache::new();
    cache.set(1, 10, 1, 1, None);
    cache.set(2, 20, 2, 4, Some(("X".to_string(), Percent { milli: 500 })));
    cache.set(3, 30, 0, 0, None);

    let mut listed = cache.entries();
    assert_eq!(listed.len(), 3);
    listed.sort_by_key(|(appid, _)| *appid);
    assert_eq!(listed[0].0, 1);
    assert_eq!(listed[1].0, 2);
    assert_eq!(listed[2].0, 3);
    assert_eq!(listed[1].1.rarest_name.as_deref(), Some("X"));

    let rebuilt = AchievementCache::from_entries(&listed);
    assert_eq!(rebuilt.len(), 3);
    assert!(rebuilt.get(2, 20).is_some());
    assert!(rebuilt.get(2, 21).is_none());
    assert_eq!(rebuilt.get(3, 30).unwrap().total, 0);
}

#[test]
fn from_entries_lets_later_duplicates_win() {
    let entries = vec![
        (5, steamfetch::cache::CachedAchievement {
            last_played: 1,
            achieved: 1,
            total: 2,
            rarest_name: None,
            rarest_percent: None,
        }),
        (5, steamfetch::cache::CachedAchievement {
            last_played: 9,
            achieved: 2,
            total: 2,
            rarest_name: None,
            rarest_percent: None,
        }),
    ];
    let cache = AchievementCache::from_entries(&entries);
    assert_eq!(cache.len(), 1);
    assert!(cache.get(5, 1).is_none());
    assert_eq!(cache.get(5, 9).unwrap().achieved, 2);
}
