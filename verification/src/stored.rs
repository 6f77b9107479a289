//! The rows that the service keeps in its database: players and the match
//! history snapshots taken of them, and the form in which a snapshot is sent
//! to clients.

use vstd::prelude::*;
use crate::calendar::Timestamp;
use crate::request::{MatchType, TeamSize, Versus};

verus! {

/// A player as stored.
#[derive(Clone, Debug)]
pub struct Player {
    pub id: u128,
    pub rl_user_id: i64,
    pub username: String,
    pub region: String,
    pub avatar_url: Option<String>,
}

/// One snapshot of a player's standing on a leaderboard.
#[derive(Clone, Copy, Debug)]
pub struct MatchHistory {
    pub id: u128,
    pub time: Timestamp,
    pub elo: i32,
    pub elo_rating: i32,
    pub rank: i32,
    pub wins: i32,
    pub losses: i32,
    pub win_streak: i32,
    pub match_type: MatchType,
    pub team_size: TeamSize,
    pub versus: Versus,
}

impl MatchHistory {
    /// The timestamp is one that the database can hold.
    pub open spec fn wf(&self) -> bool {
        self.time.valid()
    }
}

/// A snapshot as sent to clients: the time reduced to its `%F` date.
#[derive(Clone, Debug)]
pub struct MatchHistorySerializable {
    pub id: u128,
    pub time: String,
    pub elo: i32,
    pub elo_rating: i32,
    pub rank: i32,
    pub wins: i32,
    pub losses: i32,
    pub win_streak: i32,
    pub match_type: MatchType,
    pub team_size: TeamSize,
    pub versus: Versus,
}

impl MatchHistorySerializable {
    /// Whether `self` is the client form of `m`.
    pub open spec fn serializes(&self, m: MatchHistory) -> bool {
        &&& self.id == m.id
        &&& self.time@ == m.time.date.iso_text()
        &&& self.elo == m.elo
        &&& self.elo_rating == m.elo_rating
        &&& self.rank == m.rank
        &&& self.wins == m.wins
        &&& self.losses == m.losses
        &&& self.win_streak == m.win_streak
        &&& self.match_type == m.match_type
        &&& self.team_size == m.team_size
        &&& self.versus == m.versus
    }

    /// The client form keeps each field of its snapshot under the same
    /// name: the wins stay wins and the losses stay losses, and likewise the
    /// identifier, the rating, the points, the rank, the streak and the
    /// leaderboard.
    pub proof fn lemma_serialized_keeps_fields(r: MatchHistorySerializable, m: MatchHistory)
        requires
            r.serializes(m),
        ensures
            r.id == m.id,
            r.wins == m.wins,
            r.losses == m.losses,
            r.elo == m.elo,
            r.elo_rating == m.elo_rating,
            r.rank == m.rank,
            r.win_streak == m.win_streak,
            r.match_type == m.match_type,
            r.team_size == m.team_size,
            r.versus == m.versus,
    {
    }

    /// The client form of a snapshot: every field kept, the time written as
    /// the date `YYYY-MM-DD`.
    pub fn from(m: &MatchHistory) -> (r: MatchHistorySerializable)
        requires
            m.wf(),
        ensures
            r.serializes(*m),
            r.id == m.id,
            r.time@ == m.time.date.iso_text(),
            r.elo == m.elo,
            r.elo_rating == m.elo_rating,
            r.rank == m.rank,
            r.wins == m.wins,
            r.losses == m.losses,
            r.win_streak == m.win_streak,
            r.match_type == m.match_type,
            r.team_size == m.team_size,
            r.versus == m.versus,
    {
        MatchHistorySerializable {
            id: m.id,
            time: m.time.date.to_iso_string(),
            elo: m.elo,
            elo_rating: m.elo_rating,
            versus: m.versus,
            team_size: m.team_size,
            rank: m.rank,
            win_streak: m.win_streak,
            wins: m.wins,
            losses: m.losses,
            match_type: m.match_type,
        }
    }
}

} // verus!
