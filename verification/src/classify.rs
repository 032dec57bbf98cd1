//! Response classification: recognizing domain errors that arrive as
//! well-formed bodies, before (and alongside) structural decoding.

use vstd::prelude::*;

use crate::error::ResponseError;
use crate::error::SteamApiError;
use crate::models::OwnedGamesData;
use crate::models::Player;
use crate::models::PlayerSummaryData;
use crate::text::contains_sub;
use crate::text::seq_contains;

verus! {

/// An optional reference, read as an optional value.
pub open spec fn opt_deref<T>(o: Option<&T>) -> Option<T> {
    match o {
        Some(x) => Some(*x),
        None => None,
    }
}

/// What a player-summary body signals before structural decoding:
/// an empty player list means the player was not found, and explicit
/// forbidden markers mean the key was rejected, whatever the HTTP status.
pub open spec fn spec_detect_api_error(body: Seq<char>) -> Result<(), SteamApiError> {
    if seq_contains(body, "\"players\":[]"@) || seq_contains(body, "\"players\": []"@) {
        Err(SteamApiError::PlayerNotFound)
    } else if seq_contains(body, "Forbidden"@) || seq_contains(body, "Access is denied"@) {
        Err(SteamApiError::InvalidApiKey)
    } else {
        Ok(())
    }
}

/// Sniff a player-summary body for domain errors that hide behind a
/// successful status.
pub fn detect_api_error(body: &str) -> (r: Result<(), SteamApiError>)
    ensures
        r == spec_detect_api_error(body@),
{
    if contains_sub(body, "\"players\":[]") || contains_sub(body, "\"players\": []") {
        Err(SteamApiError::PlayerNotFound)
    } else if contains_sub(body, "Forbidden") || contains_sub(body, "Access is denied") {
        Err(SteamApiError::InvalidApiKey)
    } else {
        Ok(())
    }
}

/// What an owned-games body signals: a decodable body with zero games and
/// no games key at all is taken for a private profile, and an undecodable
/// body is taken for one when it lacks the games key or reports a zero
/// count. A body with zero games but the key present is a genuinely empty
/// library. This heuristic is best-effort: a private profile and an empty
/// library are not always distinguishable.
pub open spec fn spec_detect_private_profile(body: Seq<char>, parsed: Option<OwnedGamesData>)
    -> Result<(), ResponseError> {
    match parsed {
        Some(d) => if d.games@.len() == 0 && d.game_count == 0 && !seq_contains(
            body,
            "\"games\""@,
        ) {
            Err(ResponseError::Api(SteamApiError::PrivateProfile))
        } else {
            Ok(())
        },
        None => if seq_contains(body, "\"game_count\":0"@) || !seq_contains(body, "\"games\""@) {
            Err(ResponseError::Api(SteamApiError::PrivateProfile))
        } else {
            Err(ResponseError::ParseFailed)
        },
    }
}

/// Sniff an owned-games body for the private-profile signal, given the
/// outcome of structurally decoding it.
pub fn detect_private_profile(body: &str, parsed: Option<&OwnedGamesData>) -> (r: Result<
    (),
    ResponseError,
>)
    ensures
        r == spec_detect_private_profile(body@, opt_deref(parsed)),
{
    match parsed {
        Some(d) => {
            if d.games.len() == 0 && d.game_count == 0 && !contains_sub(body, "\"games\"") {
                Err(ResponseError::Api(SteamApiError::PrivateProfile))
            } else {
                Ok(())
            }
        },
        None => {
            if contains_sub(body, "\"game_count\":0") || !contains_sub(body, "\"games\"") {
                Err(ResponseError::Api(SteamApiError::PrivateProfile))
            } else {
                Err(ResponseError::ParseFailed)
            }
        },
    }
}

/// What the identity call yields from a body and its decoded form: a
/// sniffed domain error first, then a decode failure, then the first
/// player of the list, or PlayerNotFound when the list is empty.
pub open spec fn spec_player_from_response(body: Seq<char>, parsed: Option<PlayerSummaryData>)
    -> Result<Player, ResponseError> {
    match spec_detect_api_error(body) {
        Err(e) => Err(ResponseError::Api(e)),
        Ok(()) => match parsed {
            None => Err(ResponseError::ParseFailed),
            Some(d) => if d.players@.len() == 0 {
                Err(ResponseError::Api(SteamApiError::PlayerNotFound))
            } else {
                Ok(d.players@[0])
            },
        },
    }
}

/// Classify an identity body and pick the player out of its decoded form.
pub fn player_from_response(body: &str, parsed: Option<PlayerSummaryData>) -> (r: Result<
    Player,
    ResponseError,
>)
    ensures
        r == spec_player_from_response(body@, parsed),
{
    match detect_api_error(body) {
        Err(e) => Err(ResponseError::Api(e)),
        Ok(()) => match parsed {
            None => Err(ResponseError::ParseFailed),
            Some(d) => {
                let mut players = d.players;
                if players.len() == 0 {
                    Err(ResponseError::Api(SteamApiError::PlayerNotFound))
                } else {
                    Ok(players.remove(0))
                }
            },
        },
    }
}

/// What the library call yields from a body and its decoded form: the
/// private-profile heuristic first, then the decoded games.
pub open spec fn spec_library_from_response(body: Seq<char>, parsed: Option<OwnedGamesData>)
    -> Result<OwnedGamesData, ResponseError> {
    match spec_detect_private_profile(body, parsed) {
        Err(e) => Err(e),
        Ok(()) => match parsed {
            Some(d) => Ok(d),
            None => Err(ResponseError::ParseFailed),  // unreachable: an undecodable body never classifies Ok
        },
    }
}

/// Classify an owned-games body and hand back its decoded games.
pub fn library_from_response(body: &str, parsed: Option<OwnedGamesData>) -> (r: Result<
    OwnedGamesData,
    ResponseError,
>)
    ensures
        r == spec_library_from_response(body@, parsed),
{
    let check = match &parsed {
        Some(d) => detect_private_profile(body, Some(d)),
        None => detect_private_profile(body, None),
    };
    match check {
        Err(e) => Err(e),
        Ok(()) => match parsed {
            Some(d) => Ok(d),
            None => Err(ResponseError::ParseFailed),
        },
    }
}

} // verus!
