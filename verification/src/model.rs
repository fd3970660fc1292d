//! Plain data records of the surrounding application: match rows,
//! tournament rows and the response shapes assembled from them.
//!
//! These types carry no scoring logic of their own; they are the values the
//! engine's collaborators hand in and take out.

use vstd::prelude::*;

verus! {

/// One match row, with its team names, scores and colors.
#[derive(Clone, Debug)]
pub struct MatchData {
    pub server: String,
    pub start_time: u64,
    pub duration: u32,
    pub winner: i32,
    pub team_one_score: u32,
    pub team_two_score: u32,
    pub map: String,
    pub is_tourney: bool,
    pub team_one_name: String,
    pub team_two_name: String,
    pub team_one_color: Option<u32>,
    pub team_two_color: Option<u32>,
}

/// A match row without its player list.
#[derive(Clone, Debug)]
pub struct PlayerlessMatchData {
    pub server: String,
    pub start_time: u64,
    pub duration: u32,
    pub winner: i32,
    pub team_one_score: u32,
    pub team_two_score: u32,
    pub map: String,
    pub is_tourney: bool,
    pub team_one_name: String,
    pub team_two_name: String,
    pub team_one_color: Option<u32>,
    pub team_two_color: Option<u32>,
}

/// A tournament row: identity, name, date and winner.
#[derive(Clone, Debug)]
pub struct TournamentBase {
    pub id: u32,
    pub name: String,
    pub date: u64,
    pub winner_team_id: i32,
}

/// One match of a tournament, with the tournament-level team ids.
#[derive(Clone, Debug)]
pub struct TournamentMatchMapping {
    pub tournament_id: u32,
    pub match_id: u32,
    pub team_one_tournament_id: i32,
    pub team_two_tournament_id: i32,
    pub duration: u32,
    pub server: String,
    pub start_time: u64,
    pub team_one_score: u32,
    pub team_two_score: u32,
}

/// The response shape of one tournament match.
#[derive(Clone, Debug)]
pub struct TournamentMatchResponse {
    pub duration: u32,
    pub match_id: u32,
    pub server: String,
    pub start_time: u64,
    pub team_one_id: i32,
    pub team_one_score: u32,
    pub team_two_id: i32,
    pub team_two_score: u32,
}

/// The response shape of one match without players.
#[derive(Clone, Debug)]
pub struct PlayerlessMatchApi {
    pub id: u32,
    pub data: PlayerlessMatchData,
}

/// One entry of the name-lookup service's answer.
#[derive(Clone, Debug)]
pub struct UsernameResolveResponse {
    pub name: String,
    pub id: String,
}

/// Shape each tournament match row into its response form, keeping every
/// field and the order of the rows.
pub fn generate_match_response(matches: &Vec<TournamentMatchMapping>) -> (r: Vec<
    TournamentMatchResponse,
>)
    ensures
        r@.len() == matches@.len(),
        forall|i: int|
            0 <= i < r@.len() ==> {
                &&& (#[trigger] r@[i]).duration == matches@[i].duration
                &&& r@[i].match_id == matches@[i].match_id
                &&& r@[i].server@ == matches@[i].server@
                &&& r@[i].start_time == matches@[i].start_time
                &&& r@[i].team_one_id == matches@[i].team_one_tournament_id
                &&& r@[i].team_one_score == matches@[i].team_one_score
                &&& r@[i].team_two_id == matches@[i].team_two_tournament_id
                &&& r@[i].team_two_score == matches@[i].team_two_score
            },
{
    let n = matches.len();
    let mut r: Vec<TournamentMatchResponse> = Vec::new();
    let mut i: usize = 0;
    while i < n
        invariant
            0 <= i <= n,
            n == matches.len(),
            r@.len() == i,
            forall|j: int|
                0 <= j < i ==> {
                    &&& (#[trigger] r@[j]).duration == matches@[j].duration
                    &&& r@[j].match_id == matches@[j].match_id
                    &&& r@[j].server@ == matches@[j].server@
                    &&& r@[j].start_time == matches@[j].start_time
                    &&& r@[j].team_one_id == matches@[j].team_one_tournament_id
                    &&& r@[j].team_one_score == matches@[j].team_one_score
                    &&& r@[j].team_two_id == matches@[j].team_two_tournament_id
                    &&& r@[j].team_two_score == matches@[j].team_two_score
                },
        decreases n - i,
    {
        let m = &matches[i];
        r.push(
            TournamentMatchResponse {
                duration: m.duration,
                match_id: m.match_id,
                server: m.server.clone(),
                start_time: m.start_time,
                team_one_id: m.team_one_tournament_id,
                team_one_score: m.team_one_score,
                team_two_id: m.team_two_tournament_id,
                team_two_score: m.team_two_score,
            },
        );
        i = i + 1;
    }
    r
}

} // verus!
