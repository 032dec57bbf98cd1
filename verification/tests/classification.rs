use steamfetch::classify::detect_api_error;
use steamfetch::classify::detect_private_profile;
use steamfetch::classify::library_from_response;
use steamfetch::classify::player_from_response;
use steamfetch::error::ResponseError;
use steamfetch::error::SteamApiError;
use steamfetch::models::Game;
use steamfetch::models::OwnedGamesData;
use steamfetch::models::Player;
use steamfetch::models::PlayerSummaryData;

#[test]
fn test_detect_api_error_empty_players() {
    let body = r#"{"response":{"players":[]}}"#;
    let result = detect_api_error(body);
    assert!(result.is_err());
}

#[test]
fn test_detect_api_error_with_player() {
    let body = r#"{"response":{"players":[{"personaname":"test"}]}}"#;
    let result = detect_api_error(body);
    assert!(result.is_ok());
}

#[test]
fn test_detect_private_profile_no_games_key() {
    let body = r#"{"response":{"game_count":0}}"#;
    let parsed = OwnedGamesData { game_count: 0, games: vec![] };
    let result = detect_private_profile(body, Some(&parsed));
    assert!(result.is_err());
}

#[test]
fn test_detect_private_profile_with_games() {
    let body = r#"{"response":{"game_count":1,"games":[{"appid":220,"name":"Half-Life 2","playtime_forever":100}]}}"#;
    let parsed = OwnedGamesData {
        game_count: 1,
        games: vec![Game {
            appid: 220,
            name: Some("Half-Life 2".to_string()),
            playtime_forever: 100,
            playtime_2weeks: 0,
            rtime_last_played: 0,
        }],
    };
    let result = detect_private_profile(body, Some(&parsed));
    assert!(result.is_ok());
}

#[test]
fn detect_api_error_spaced_empty_players() {
    let body = r#"{"response":{"players": []}}"#;
    assert!(matches!(
        detect_api_error(body),
        Err(SteamApiError::PlayerNotFound)
    ));
}

#[test]
fn detect_api_error_forbidden_marker() {
    let body = "<html>Forbidden</html>";
    assert!(matches!(
        detect_api_error(body),
        Err(SteamApiError::InvalidApiKey)
    ));
    let denied = "Access is denied. Retrying will not help.";
    assert!(matches!(
        detect_api_error(denied),
        Err(SteamApiError::InvalidApiKey)
    ));
}

#[test]
fn detect_private_profile_unparsable_without_games_key() {
    let body = "not json at all";
    assert!(matches!(
        detect_private_profile(body, None),
        Err(ResponseError::Api(SteamApiError::PrivateProfile))
    ));
}

#[test]
fn detect_private_profile_unparsable_with_games_key() {
    let body = r#"{"response":{"games":[{"appid":}]}}"#;
    assert!(matches!(
        detect_private_profile(body, None),
        Err(ResponseError::ParseFailed)
    ));
}

#[test]
fn detect_private_profile_empty_library_with_key_is_ok() {
    let body = r#"{"response":{"game_count":0,"games":[]}}"#;
    let parsed = OwnedGamesData { game_count: 0, games: vec![] };
    assert!(detect_private_profile(body, Some(&parsed)).is_ok());
}

#[test]
fn player_from_response_picks_first_player() {
    let body = r#"{"response":{"players":[{"personaname":"alice"},{"personaname":"bob"}]}}"#;
    let parsed = PlayerSummaryData {
        players: vec![
            Player {
                personaname: "alice".to_string(),
                timecreated: Some(1_234_567_890),
                loccountrycode: Some("DE".to_string()),
            },
            Player {
                personaname: "bob".to_string(),
                timecreated: None,
                loccountrycode: None,
            },
        ],
    };
    let player = player_from_response(body, Some(parsed)).unwrap();
    assert_eq!(player.personaname, "alice");
    assert_eq!(player.timecreated, Some(1_234_567_890));
}

#[test]
fn player_from_response_empty_list_is_not_found() {
    let body = r#"{"response":{"players":[]}}"#;
    let parsed = PlayerSummaryData { players: vec![] };
    assert!(matches!(
        player_from_response(body, Some(parsed)),
        Err(ResponseError::Api(SteamApiError::PlayerNotFound))
    ));
}

#[test]
fn player_from_response_parse_failure() {
    let body = "{}";
    assert!(matches!(
        player_from_response(body, None),
        Err(ResponseError::ParseFailed)
    ));
}

#[test]
fn library_from_response_passes_games_through() {
    let body = r#"{"response":{"game_count":1,"games":[{"appid":7,"playtime_forever":3}]}}"#;
    let parsed = OwnedGamesData {
        game_count: 1,
        games: vec![Game {
            appid: 7,
            name: None,
            playtime_forever: 3,
            playtime_2weeks: 0,
            rtime_last_played: 0,
        }],
    };
    let data = library_from_response(body, Some(parsed)).unwrap();
    assert_eq!(data.game_count, 1);
    assert_eq!(data.games.len(), 1);
    assert_eq!(data.games[0].appid, 7);
}

#[test]
fn library_from_response_private_profile() {
    let body = r#"{"response":{"game_count":0}}"#;
    let parsed = OwnedGamesData { game_count: 0, games: vec![] };
    assert!(matches!(
        library_from_response(body, Some(parsed)),
        Err(ResponseError::Api(SteamApiError::PrivateProfile))
    ));
}
