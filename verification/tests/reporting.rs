use steamfetch::models::AchievementStats;
use steamfetch::models::Game;
use steamfetch::models::GameStat;
use steamfetch::models::OwnedGamesData;
use steamfetch::report::assemble_report;
use steamfetch::report::count_unplayed;
use steamfetch::report::extract_top_games;
use steamfetch::report::recent_game_stats;
use steamfetch::report::total_playtime;
use steamfetch::text::display_name;

fn game(appid: u32, name: Option<&str>, playtime: u32) -> Game {
    Game {
        appid,
        name: name.map(|n| n.to_string()),
        playtime_forever: playtime,
        playtime_2weeks: 0,
        rtime_last_played: 0,
    }
}

#[test]
fn test_extract_top_games_sorts_by_playtime() {
    let games = OwnedGamesData {
        game_count: 3,
        games: vec![
            Game {
                appid: 1,
                name: Some("A".to_string()),
                playtime_forever: 10,
                playtime_2weeks: 0,
                rtime_last_played: 0,
            },
            Game {
                appid: 2,
                name: Some("B".to_string()),
                playtime_forever: 100,
                playtime_2weeks: 0,
                rtime_last_played: 0,
            },
            Game {
                appid: 3,
                name: Some("C".to_string()),
                playtime_forever: 50,
                playtime_2weeks: 0,
                rtime_last_played: 0,
            },
        ],
    };
    let top = extract_top_games(&games);
    assert_eq!(top[0].name, "B");
    assert_eq!(top[1].name, "C");
    assert_eq!(top[2].name, "A");
}

#[test]
fn top_five_keeps_equal_playtimes_in_original_order() {
    // Playtimes [10, 100, 50, 100, 0]: the two 100s come first in their
    // original relative order, then 50, then 10, then 0. Nothing is cut
    // here but by the five-entry limit, not by being unplayed.
    let games = OwnedGamesData {
        game_count: 5,
        games: vec![
            game(1, Some("Ten"), 10),
            game(2, Some("HundredFirst"), 100),
            game(3, Some("Fifty"), 50),
            game(4, Some("HundredSecond"), 100),
            game(5, Some("Zero"), 0),
        ],
    };
    let top = extract_top_games(&games);
    assert_eq!(top.len(), 5);
    assert_eq!(top[0].name, "HundredFirst");
    assert_eq!(top[1].name, "HundredSecond");
    assert_eq!(top[2].name, "Fifty");
    assert_eq!(top[3].name, "Ten");
    assert_eq!(top[4].name, "Zero");
}

#[test]
fn top_five_cuts_the_sixth_game() {
    let games = OwnedGamesData {
        game_count: 6,
        games: vec![
            game(1, Some("a"), 60),
            game(2, Some("b"), 50),
            game(3, Some("c"), 40),
            game(4, Some("d"), 30),
            game(5, Some("e"), 20),
            game(6, Some("f"), 10),
        ],
    };
    let top = extract_top_games(&games);
    assert_eq!(top.len(), 5);
    assert_eq!(top[4].name, "e");
}

#[test]
fn unnamed_games_show_their_identifier() {
    assert_eq!(display_name(&None, 7), "App 7");
    assert_eq!(display_name(&None, 1234567), "App 1234567");
    assert_eq!(display_name(&Some("Named".to_string()), 7), "Named");

    let games = OwnedGamesData { game_count: 1, games: vec![game(440, None, 9)] };
    let top = extract_top_games(&games);
    assert_eq!(top[0].name, "App 440");
}

#[test]
fn unplayed_counts_only_zero_playtime() {
    let games = vec![
        game(1, None, 0),
        game(2, None, 5),
        game(3, None, 0),
    ];
    assert_eq!(count_unplayed(&games), 2);
    assert_eq!(total_playtime(&games), 5);
}

#[test]
fn recent_stats_use_two_week_playtime() {
    let mut g = game(1, Some("Recent"), 900);
    g.playtime_2weeks = 120;
    let stats = recent_game_stats(&vec![g]);
    assert_eq!(stats.len(), 1);
    assert_eq!(stats[0].name, "Recent");
    assert_eq!(stats[0].playtime_minutes, 120);
}

#[test]
fn report_combines_all_pieces() {
    let games = OwnedGamesData {
        game_count: 3,
        games: vec![
            game(1, Some("A"), 0),
            game(2, Some("B"), 300),
            game(3, Some("C"), 60),
        ],
    };
    let stats = AchievementStats {
        total_achieved: 4,
        total_possible: 9,
        perfect_games: 0,
        rarest: None,
    };
    let recent = vec![GameStat { name: "B".to_string(), playtime_minutes: 30 }];
    let report = assemble_report(
        "alice".to_string(),
        3,
        &games,
        Some(stats),
        Some(1_234_567_890),
        Some("DE".to_string()),
        Some(42),
        recent,
    );
    assert_eq!(report.username, "alice");
    assert_eq!(report.game_count, 3);
    assert_eq!(report.unplayed_count, 1);
    assert_eq!(report.total_playtime_minutes, 360);
    assert_eq!(report.top_games[0].name, "B");
    assert_eq!(report.top_games[1].name, "C");
    assert_eq!(report.top_games[2].name, "A");
    assert_eq!(report.steam_level, Some(42));
    assert_eq!(report.account_created, Some(1_234_567_890));
    assert_eq!(report.country.as_deref(), Some("DE"));
    assert_eq!(report.recently_played.len(), 1);
    assert_eq!(report.playtime_hours(), 6);
    assert_eq!(report.playtime_days(), 0);
    let achievements = report.achievement_stats.unwrap();
    assert_eq!(achievements.total_achieved, 4);
}

#[test]
fn playtime_getters_divide_minutes() {
    let stat = GameStat { name: "G".to_string(), playtime_minutes: 150 };
    assert_eq!(stat.playtime_hours(), 2);
}
