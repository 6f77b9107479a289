//! A page of a leaderboard as the public API returns it, reduced to what the
//! service reads of it.

use vstd::prelude::*;
use crate::request::AgeOfEmpiresLeaderboardRequest;

verus! {

/// One page of a leaderboard, with the request that fetched it.
#[derive(Clone, Debug)]
pub struct Leaderboard {
    pub request: Option<AgeOfEmpiresLeaderboardRequest>,
    pub count: u32,
    pub items: Vec<LeaderboardEntry>,
}

/// One player's line on a leaderboard page.
#[derive(Clone, Debug)]
pub struct LeaderboardEntry {
    pub rl_user_id: i64,
    pub username: String,
    pub avatar_url: Option<String>,
    pub elo: i32,
    pub elo_rating: i32,
    pub rank: i32,
    pub region: String,
    pub wins: i32,
    pub losses: i32,
    pub win_streak: i32,
}

/// Copies an optional text.
pub fn clone_optional_text(o: &Option<String>) -> (r: Option<String>)
    ensures
        r == *o,
{
    match o {
        Some(s) => Some(s.clone()),
        None => None,
    }
}

} // verus!
