//! The crawler's own form of the leaderboard request: the same request, with
//! a team size that has no custom variant.

use vstd::prelude::*;

pub use crate::request::{MatchType, Region, Versus};

verus! {

/// The size of each team, as the crawler asks for it.
#[derive(Clone, Copy, Debug, PartialEq, Eq, Structural)]
pub enum TeamSize {
    T1v1,
    T2v2,
    T3v3,
    T4v4,
}

/// A request for one page of a leaderboard.
#[derive(Clone, Debug)]
pub struct AgeOfEmpiresLeaderboardRequest {
    pub region: Region,
    pub versus: Versus,
    pub match_type: MatchType,
    pub team_size: Option<TeamSize>,
    pub search_player: String,
    pub page: u32,
    pub count: u32,
}

impl AgeOfEmpiresLeaderboardRequest {
    /// A request for page `page` of the unranked leaderboard, a hundred
    /// entries per page, with no player searched for.
    pub fn new(page: u32, region: Region, team_size: Option<TeamSize>, versus: Versus) -> (r:
        AgeOfEmpiresLeaderboardRequest)
        ensures
            r.count == 100,
            r.match_type == MatchType::Unranked,
            r.page == page,
            r.region == region,
            r.search_player@ == Seq::<char>::empty(),
            r.team_size == team_size,
            r.versus == versus,
    {
        AgeOfEmpiresLeaderboardRequest {
            count: 100,
            match_type: MatchType::Unranked,
            page,
            region,
            search_player: String::new(),
            team_size,
            versus,
        }
    }
}

} // verus!
