use steamfetch::appids::chunk_appids;
use steamfetch::appids::games_for_appids;
use steamfetch::appids::merge_owned_chunks;
use steamfetch::appids::parse_games_xml;
use steamfetch::config::Config;
use steamfetch::config::ConfigError;
use steamfetch::config::ConfigFile;
use steamfetch::models::Game;
use steamfetch::models::OwnedGamesData;

#[test]
fn test_parse_games_xml() {
    let xml = r#"<?xml version="1.0"?><games><game>220</game><game>240</game><game type="junk">480</game></games>"#;
    let appids = parse_games_xml(xml);
    assert_eq!(appids, vec![220, 240, 480]);
}

#[test]
fn games_xml_skips_unparsable_content() {
    let xml = "<games><game>not-a-number</game><game> 730 </game><game>99</games>";
    let appids = parse_games_xml(xml);
    assert_eq!(appids, vec![730]);
}

#[test]
fn games_xml_of_nothing_is_empty() {
    assert_eq!(parse_games_xml(""), Vec::<u32>::new());
    assert_eq!(parse_games_xml("<games></games>"), Vec::<u32>::new());
}

#[test]
fn chunks_hold_at_most_one_hundred_ids() {
    let appids: Vec<u32> = (0..250).collect();
    let chunks = chunk_appids(&appids);
    assert_eq!(chunks.len(), 3);
    assert_eq!(chunks[0].len(), 100);
    assert_eq!(chunks[1].len(), 100);
    assert_eq!(chunks[2].len(), 50);
    let flattened: Vec<u32> = chunks.into_iter().flatten().collect();
    assert_eq!(flattened, appids);
}

#[test]
fn an_empty_id_list_needs_no_chunks() {
    let chunks = chunk_appids(&Vec::new());
    assert!(chunks.is_empty());
}

#[test]
fn exactly_one_hundred_ids_fill_one_chunk() {
    let appids: Vec<u32> = (0..100).collect();
    let chunks = chunk_appids(&appids);
    assert_eq!(chunks.len(), 1);
    assert_eq!(chunks[0].len(), 100);
}

#[test]
fn merged_chunks_concatenate_in_order() {
    let chunk = |ids: &[u32]| OwnedGamesData {
        game_count: ids.len() as u32,
        games: ids
            .iter()
            .map(|&appid| Game {
                appid,
                name: None,
                playtime_forever: 0,
                playtime_2weeks: 0,
                rtime_last_played: 0,
            })
            .collect(),
    };
    let merged = merge_owned_chunks(vec![chunk(&[1, 2]), chunk(&[3]), chunk(&[])]);
    assert_eq!(merged.game_count, 3);
    let ids: Vec<u32> = merged.games.iter().map(|g| g.appid).collect();
    assert_eq!(ids, vec![1, 2, 3]);
}

#[test]
fn owned_id_list_carries_fetched_playtimes_over() {
    let owned = vec![
        Game {
            appid: 10,
            name: Some("Known".to_string()),
            playtime_forever: 55,
            playtime_2weeks: 7,
            rtime_last_played: 999,
        },
    ];
    let rebuilt = games_for_appids(&vec![10, 11], &owned);
    assert_eq!(rebuilt.len(), 2);
    assert_eq!(rebuilt[0].appid, 10);
    assert_eq!(rebuilt[0].name.as_deref(), Some("Known"));
    assert_eq!(rebuilt[0].playtime_forever, 55);
    assert_eq!(rebuilt[0].playtime_2weeks, 0);
    assert_eq!(rebuilt[0].rtime_last_played, 999);
    assert_eq!(rebuilt[1].appid, 11);
    assert!(rebuilt[1].name.is_none());
    assert_eq!(rebuilt[1].playtime_forever, 0);
}

#[test]
fn environment_values_take_precedence_over_the_file() {
    let mut file = ConfigFile::default();
    file.api.steam_api_key = Some("file-key".to_string());
    file.api.steam_id = Some("file-id".to_string());
    let config = Config::resolve(
        Some("env-key".to_string()),
        None,
        file,
    )
    .unwrap();
    assert_eq!(config.api_key, "env-key");
    assert_eq!(config.steam_id, "file-id");
    assert_eq!(config.display.show_top_games, 5);
}

#[test]
fn missing_values_name_what_is_missing() {
    let err = Config::resolve(None, Some("id".to_string()), ConfigFile::default());
    assert!(matches!(err, Err(ConfigError::MissingApiKey)));

    let mut file = ConfigFile::default();
    file.api.steam_api_key = Some("k".to_string());
    let err = Config::resolve(None, None, file);
    assert!(matches!(err, Err(ConfigError::MissingSteamId)));
}
