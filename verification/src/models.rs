//! The data model: games, players, achievements, and the assembled report.

use vstd::prelude::*;

use crate::percent::Percent;

verus! {

/// One game of the player's library.
#[derive(Debug, Clone)]
pub struct Game {
    pub appid: u32,
    pub name: Option<String>,
    pub playtime_forever: u32,
    pub playtime_2weeks: u32,
    pub rtime_last_played: u64,
}

/// The owned-games endpoint's payload.
#[derive(Debug, Clone)]
pub struct OwnedGamesData {
    pub game_count: u32,
    pub games: Vec<Game>,
}

/// The owned-games endpoint's response envelope.
#[derive(Debug, Clone)]
pub struct OwnedGamesResponse {
    pub response: OwnedGamesData,
}

/// The recent-activity endpoint's payload.
#[derive(Debug, Clone)]
pub struct RecentlyPlayedData {
    pub total_count: Option<u32>,
    pub games: Vec<Game>,
}

/// The recent-activity endpoint's response envelope.
#[derive(Debug, Clone)]
pub struct RecentlyPlayedResponse {
    pub response: RecentlyPlayedData,
}

/// The platform-level endpoint's payload.
#[derive(Debug, Clone)]
pub struct SteamLevelData {
    pub player_level: Option<u32>,
}

/// The platform-level endpoint's response envelope.
#[derive(Debug, Clone)]
pub struct SteamLevelResponse {
    pub response: SteamLevelData,
}

/// One player of the identity endpoint.
#[derive(Debug, Clone)]
pub struct Player {
    pub personaname: String,
    pub timecreated: Option<u64>,
    pub loccountrycode: Option<String>,
}

/// The identity endpoint's payload.
#[derive(Debug, Clone)]
pub struct PlayerSummaryData {
    pub players: Vec<Player>,
}

/// The identity endpoint's response envelope.
#[derive(Debug, Clone)]
pub struct PlayerSummaryResponse {
    pub response: PlayerSummaryData,
}

/// One unlockable achievement of the per-game unlock list.
#[derive(Debug, Clone)]
pub struct Achievement {
    pub apiname: String,
    pub achieved: u8,
    pub name: Option<String>,
}

/// The per-game unlock list's payload.
#[derive(Debug, Clone)]
pub struct AchievementsData {
    pub achievements: Vec<Achievement>,
}

/// The per-game unlock list's response envelope.
#[derive(Debug, Clone)]
pub struct AchievementsResponse {
    pub playerstats: AchievementsData,
}

/// One entry of the global unlock-percentage table.
#[derive(Debug, Clone)]
pub struct GlobalAchievement {
    pub name: String,
    pub percent: Percent,
}

/// The global unlock-percentage endpoint's payload.
#[derive(Debug, Clone)]
pub struct GlobalAchievementsData {
    pub achievements: Vec<GlobalAchievement>,
}

/// The global unlock-percentage endpoint's response envelope.
#[derive(Debug, Clone)]
pub struct GlobalAchievementsResponse {
    pub achievementpercentages: GlobalAchievementsData,
}

/// The globally rarest achievement the player has unlocked.
#[derive(Debug, Clone)]
pub struct RarestAchievement {
    pub name: String,
    pub game: String,
    pub percent: Percent,
}

/// The cross-game achievement aggregate.
#[derive(Debug, Clone)]
pub struct AchievementStats {
    pub total_achieved: u32,
    pub total_possible: u32,
    pub perfect_games: u32,
    pub rarest: Option<RarestAchievement>,
}

/// A named playtime figure, as shown in the report.
#[derive(Debug, Clone)]
pub struct GameStat {
    pub name: String,
    pub playtime_minutes: u32,
}

/// The assembled report handed to the renderer.
#[derive(Debug, Clone)]
pub struct SteamStats {
    pub username: String,
    pub game_count: u32,
    pub unplayed_count: u32,
    pub total_playtime_minutes: u32,
    pub top_games: Vec<GameStat>,
    pub achievement_stats: Option<AchievementStats>,
    pub account_created: Option<u64>,
    pub country: Option<String>,
    pub steam_level: Option<u32>,
    pub recently_played: Vec<GameStat>,
}

impl SteamStats {
    /// Total playtime in whole hours.
    pub fn playtime_hours(&self) -> (r: u32)
        ensures
            r == self.total_playtime_minutes / 60,
    {
        self.total_playtime_minutes / 60
    }

    /// Total playtime in whole days.
    pub fn playtime_days(&self) -> (r: u32)
        ensures
            r == self.total_playtime_minutes / 60 / 24,
    {
        self.total_playtime_minutes / 60 / 24
    }
}

impl GameStat {
    /// This entry's playtime in whole hours.
    pub fn playtime_hours(&self) -> (r: u32)
        ensures
            r == self.playtime_minutes / 60,
    {
        self.playtime_minutes / 60
    }
}

} // verus!
