//! Storing one leaderboard page: for each entry, find or create the player,
//! refresh its name, avatar and region, and add a match history snapshot
//! unless the latest stored one already shows the same standing.
//!
//! The database work is done by the caller; this module decides, from the
//! reply to each query, which query comes next.

use vstd::prelude::*;
use crate::identifier::NIL_ID;
use crate::leaderboard::{clone_optional_text, Leaderboard, LeaderboardEntry};
use crate::request::{AgeOfEmpiresLeaderboardRequest, MatchType, TeamSize, Versus};

verus! {

/// The latest snapshot stored for a player, in the columns that are compared.
#[derive(Clone, Copy, Debug, PartialEq, Eq, Structural)]
pub struct StoredMatch {
    pub match_type: MatchType,
    pub team_size: TeamSize,
    pub versus: Versus,
    pub rank: i32,
    pub elo: i32,
    pub wins: i32,
    pub losses: i32,
    pub win_streak: i32,
}

/// A new match history row.
#[derive(Clone, Copy, Debug, PartialEq, Eq, Structural)]
pub struct NewMatchRow {
    pub elo: i32,
    pub elo_rating: i32,
    pub rank: i32,
    pub wins: i32,
    pub losses: i32,
    pub win_streak: i32,
    pub match_type: MatchType,
    pub team_size: TeamSize,
    pub versus: Versus,
}

/// Where the storing of a page stands: which query was sent last, for which
/// entry.
#[derive(Clone, Copy, Debug, PartialEq, Eq, Structural)]
pub enum SaveState {
    PlayerLookup { index: usize },
    PlayerUpdate { index: usize, player_id: u128 },
    PlayerInsert { index: usize },
    LatestMatch { index: usize, player_id: u128 },
    MatchInsert { index: usize, player_id: u128 },
    Link { index: usize },
    Finished,
}

/// The reply to the query last sent.
#[derive(Clone, Copy, Debug, PartialEq, Eq, Structural)]
pub enum SaveEvent {
    PlayerLookupFailed,
    PlayerFound(u128),
    PlayerMissing,
    PlayerUpdated { ok: bool },
    PlayerInserted(u128),
    PlayerInsertFailed,
    LatestMatchFound(StoredMatch),
    NoLatestMatch,
    LatestMatchFailed,
    MatchInserted(u128),
    MatchInsertFailed,
    Linked { ok: bool },
}

/// The next query to send, or the end of the page.
#[derive(Clone, Debug, PartialEq, Eq)]
pub enum SaveAction {
    SelectPlayer { rl_user_id: i64 },
    UpdatePlayer {
        player_id: u128,
        username: String,
        avatar_url: Option<String>,
        region: String,
    },
    InsertPlayer { rl_user_id: i64, username: String, region: String, avatar_url: Option<String> },
    SelectLatestMatch { player_id: u128 },
    InsertMatch { row: NewMatchRow },
    LinkMatch { player_id: u128, match_id: u128 },
    Finish,
}

/// The team size that a request stands for: a request for no team size is a
/// custom one.
pub open spec fn request_team_size(req: AgeOfEmpiresLeaderboardRequest) -> TeamSize {
    match req.team_size {
        Some(t) => t,
        None => TeamSize::Custom,
    }
}

/// The latest stored snapshot shows the standing that the entry shows, on the
/// leaderboard of the request (the rating is not compared).
pub open spec fn is_same_match(
    m: StoredMatch,
    req: AgeOfEmpiresLeaderboardRequest,
    e: LeaderboardEntry,
) -> bool {
    &&& m.match_type == req.match_type
    &&& m.team_size == request_team_size(req)
    &&& m.versus == req.versus
    &&& m.rank == e.rank
    &&& m.elo == e.elo
    &&& m.wins == e.wins
    &&& m.losses == e.losses
    &&& m.win_streak == e.win_streak
}

/// The snapshot row stored for an entry seen on the leaderboard of a request.
pub open spec fn new_match_row(req: AgeOfEmpiresLeaderboardRequest, e: LeaderboardEntry) -> NewMatchRow {
    NewMatchRow {
        elo: e.elo,
        elo_rating: e.elo_rating,
        rank: e.rank,
        wins: e.wins,
        losses: e.losses,
        win_streak: e.win_streak,
        match_type: req.match_type,
        team_size: request_team_size(req),
        versus: req.versus,
    }
}

/// The compared columns of a snapshot row, as they read back once stored.
pub open spec fn stored_form(row: NewMatchRow) -> StoredMatch {
    StoredMatch {
        match_type: row.match_type,
        team_size: row.team_size,
        versus: row.versus,
        rank: row.rank,
        elo: row.elo,
        wins: row.wins,
        losses: row.losses,
        win_streak: row.win_streak,
    }
}

/// Storing a page is idempotent: the snapshot stored for an entry shows the
/// same standing as the entry, so when the same page is stored again, that
/// entry gets no new snapshot.
pub proof fn lemma_stored_snapshot_is_same_match(
    req: AgeOfEmpiresLeaderboardRequest,
    e: LeaderboardEntry,
)
    ensures
        is_same_match(stored_form(new_match_row(req, e)), req, e),
{
}

/// When the latest stored snapshot of an entry's player differs from the
/// entry in its rank, points, wins, losses, streak or leaderboard, a new
/// snapshot is inserted, and it holds the entry's own standing; only a
/// snapshot that agrees in all of these lets the entry be passed over.
pub proof fn lemma_changed_standing_is_stored(
    lb: Leaderboard,
    index: usize,
    player_id: u128,
    m: StoredMatch,
)
    requires
        save_state_fits(lb, SaveState::LatestMatch { index, player_id }),
    ensures
        ({
            let req = lb.request->0;
            let e = lb.items[index as int];
            let r = save_transition(
                lb,
                SaveState::LatestMatch { index, player_id },
                SaveEvent::LatestMatchFound(m),
            );
            &&& (m.rank != e.rank || m.elo != e.elo || m.wins != e.wins || m.losses != e.losses
                || m.win_streak != e.win_streak || m.match_type != req.match_type || m.versus
                != req.versus || m.team_size != request_team_size(req)) ==> (r.0
                == SaveState::MatchInsert { index, player_id } && r.1 is InsertMatch)
            &&& r.1 matches SaveAction::InsertMatch { row } ==> (row.rank == e.rank && row.elo
                == e.elo && row.elo_rating == e.elo_rating && row.wins == e.wins && row.losses
                == e.losses && row.win_streak == e.win_streak && row.match_type == req.match_type
                && row.versus == req.versus && row.team_size == request_team_size(req))
            &&& (m.rank == e.rank && m.elo == e.elo && m.wins == e.wins && m.losses == e.losses
                && m.win_streak == e.win_streak && m.match_type == req.match_type && m.versus
                == req.versus && m.team_size == request_team_size(req)) ==> r == begin_entry(
                lb,
                index + 1,
            )
        }),
{
}

/// The index of the entry that a state works on.
pub open spec fn state_index(s: SaveState) -> int {
    match s {
        SaveState::PlayerLookup { index } => index as int,
        SaveState::PlayerUpdate { index, .. } => index as int,
        SaveState::PlayerInsert { index } => index as int,
        SaveState::LatestMatch { index, .. } => index as int,
        SaveState::MatchInsert { index, .. } => index as int,
        SaveState::Link { index } => index as int,
        SaveState::Finished => 0,
    }
}

/// A state that can occur while storing the page: it works on an entry of the
/// page, and a page without a request is not stored at all.
pub open spec fn save_state_fits(lb: Leaderboard, s: SaveState) -> bool {
    s is Finished || (lb.request is Some && 0 <= state_index(s) < lb.items.len())
}

/// What happens when the entry at `index` comes up: its player is looked up,
/// or the page is done once no entry is left. A page without a request is
/// not stored.
pub open spec fn begin_entry(lb: Leaderboard, index: int) -> (SaveState, SaveAction) {
    if lb.request is Some && 0 <= index < lb.items.len() {
        (
            SaveState::PlayerLookup { index: index as usize },
            SaveAction::SelectPlayer { rl_user_id: lb.items[index].rl_user_id },
        )
    } else {
        (SaveState::Finished, SaveAction::Finish)
    }
}

/// How many steps are left at most: it shrinks with every step.
pub open spec fn save_measure(lb: Leaderboard, s: SaveState) -> int {
    let left: int = lb.items.len() - state_index(s);
    match s {
        SaveState::PlayerLookup { .. } => left * 8 + 7,
        SaveState::PlayerUpdate { .. } => left * 8 + 6,
        SaveState::PlayerInsert { .. } => left * 8 + 6,
        SaveState::LatestMatch { .. } => left * 8 + 5,
        SaveState::MatchInsert { .. } => left * 8 + 4,
        SaveState::Link { .. } => left * 8 + 3,
        SaveState::Finished => 0,
    }
}

fn begin_entry_exec(lb: &Leaderboard, index: usize) -> (r: (SaveState, SaveAction))
    ensures
        r == begin_entry(*lb, index as int),
{
    if lb.request.is_some() && index < lb.items.len() {
        (
            SaveState::PlayerLookup { index },
            SaveAction::SelectPlayer { rl_user_id: lb.items[index].rl_user_id },
        )
    } else {
        (SaveState::Finished, SaveAction::Finish)
    }
}

/// Compares the latest stored snapshot with an entry of the page.
pub fn same_match(m: &StoredMatch, req: &AgeOfEmpiresLeaderboardRequest, e: &LeaderboardEntry) -> (r:
    bool)
    ensures
        r == is_same_match(*m, *req, *e),
        r == (m.match_type == req.match_type && m.team_size == request_team_size(*req) && m.versus
            == req.versus && m.rank == e.rank && m.elo == e.elo && m.wins == e.wins && m.losses
            == e.losses && m.win_streak == e.win_streak),
{
    let team_size = match req.team_size {
        Some(t) => t,
        None => TeamSize::Custom,
    };
    m.match_type == req.match_type && m.team_size == team_size && m.versus == req.versus && m.rank
        == e.rank && m.elo == e.elo && m.wins == e.wins && m.losses == e.losses && m.win_streak
        == e.win_streak
}

/// The snapshot row for an entry of the page.
pub fn match_row(req: &AgeOfEmpiresLeaderboardRequest, e: &LeaderboardEntry) -> (r: NewMatchRow)
    ensures
        r == new_match_row(*req, *e),
        r.elo == e.elo && r.elo_rating == e.elo_rating && r.rank == e.rank,
        r.wins == e.wins && r.losses == e.losses && r.win_streak == e.win_streak,
        r.match_type == req.match_type && r.versus == req.versus,
        r.team_size == request_team_size(*req),
{
    let team_size = match req.team_size {
        Some(t) => t,
        None => TeamSize::Custom,
    };
    NewMatchRow {
        elo: e.elo,
        elo_rating: e.elo_rating,
        rank: e.rank,
        wins: e.wins,
        losses: e.losses,
        win_streak: e.win_streak,
        match_type: req.match_type,
        team_size,
        versus: req.versus,
    }
}

/// The first query for a page: the player of its first entry, or nothing
/// when the page is empty or has no request.
pub fn save_start(lb: &Leaderboard) -> (r: (SaveState, SaveAction))
    ensures
        r == begin_entry(*lb, 0),
        save_state_fits(*lb, r.0),
{
    begin_entry_exec(lb, 0)
}

/// The step from a state and the reply to its last query: the next state and
/// query (the table that `save_step` follows; see its comment).
pub open spec fn save_transition(lb: Leaderboard, state: SaveState, event: SaveEvent) -> (SaveState, SaveAction) {
    match (state, event) {
        (SaveState::PlayerLookup { index }, SaveEvent::PlayerLookupFailed) => begin_entry(lb, index + 1),
        (SaveState::PlayerLookup { index }, SaveEvent::PlayerFound(id)) => (
            SaveState::PlayerUpdate { index, player_id: id },
            SaveAction::UpdatePlayer {
                player_id: id,
                username: lb.items[index as int].username,
                avatar_url: lb.items[index as int].avatar_url,
                region: lb.items[index as int].region,
            },
        ),
        (SaveState::PlayerLookup { index }, SaveEvent::PlayerMissing) => (
            SaveState::PlayerInsert { index },
            SaveAction::InsertPlayer {
                rl_user_id: lb.items[index as int].rl_user_id,
                username: lb.items[index as int].username,
                region: lb.items[index as int].region,
                avatar_url: lb.items[index as int].avatar_url,
            },
        ),
        (SaveState::PlayerUpdate { index, player_id }, SaveEvent::PlayerUpdated { .. }) => (
            SaveState::LatestMatch { index, player_id },
            SaveAction::SelectLatestMatch { player_id },
        ),
        (SaveState::PlayerInsert { index }, SaveEvent::PlayerInserted(id)) => (
            SaveState::LatestMatch { index, player_id: id },
            SaveAction::SelectLatestMatch { player_id: id },
        ),
        (SaveState::PlayerInsert { index }, SaveEvent::PlayerInsertFailed) => (
            SaveState::LatestMatch { index, player_id: NIL_ID },
            SaveAction::SelectLatestMatch { player_id: NIL_ID },
        ),
        (SaveState::LatestMatch { index, player_id }, SaveEvent::LatestMatchFound(m)) => {
            if is_same_match(m, lb.request->0, lb.items[index as int]) {
                begin_entry(lb, index + 1)
            } else {
                (
                    SaveState::MatchInsert { index, player_id },
                    SaveAction::InsertMatch { row: new_match_row(lb.request->0, lb.items[index as int]) },
                )
            }
        },
        (SaveState::LatestMatch { index, player_id }, SaveEvent::NoLatestMatch)
        | (SaveState::LatestMatch { index, player_id }, SaveEvent::LatestMatchFailed) => (
            SaveState::MatchInsert { index, player_id },
            SaveAction::InsertMatch { row: new_match_row(lb.request->0, lb.items[index as int]) },
        ),
        (SaveState::MatchInsert { index, player_id }, SaveEvent::MatchInserted(match_id)) => (
            SaveState::Link { index },
            SaveAction::LinkMatch { player_id, match_id },
        ),
        (SaveState::MatchInsert { index, .. }, SaveEvent::MatchInsertFailed) => begin_entry(lb, index + 1),
        (SaveState::Link { index }, SaveEvent::Linked { .. }) => begin_entry(lb, index + 1),
        _ => (SaveState::Finished, SaveAction::Finish),
    }
}

/// The next query, given the reply to the last one.
///
/// After a failed lookup of the player the entry is given up. A player found
/// is updated, a missing one inserted; in both cases its latest snapshot is
/// read next, and when the insertion failed the nil identifier stands for the
/// player. A new snapshot is inserted unless the latest one shows the same
/// standing; a failed read of the latest one counts as no snapshot. A
/// snapshot inserted is linked to the player. A reply that does not answer
/// the last query ends the page.
///
/// A player is inserted only right after the lookup of its leaderboard id
/// found none, and updated only when it was found; no step removes a player.
pub fn save_step(lb: &Leaderboard, state: SaveState, event: SaveEvent) -> (r: (SaveState, SaveAction))
    requires
        save_state_fits(*lb, state),
    ensures
        r == save_transition(*lb, state, event),
        save_state_fits(*lb, r.0),
        r.1 is InsertPlayer ==> state is PlayerLookup && event == SaveEvent::PlayerMissing
            && r.1->InsertPlayer_rl_user_id == lb.items[state_index(state)].rl_user_id,
        r.1 is UpdatePlayer ==> state is PlayerLookup && event == SaveEvent::PlayerFound(
            r.1->UpdatePlayer_player_id,
        ),
        !(state is Finished) ==> r.0 is Finished || save_measure(*lb, r.0) < save_measure(
            *lb,
            state,
        ),
        match (state, event) {
            (SaveState::PlayerLookup { index }, SaveEvent::PlayerLookupFailed) => r == begin_entry(
                *lb,
                index + 1,
            ),
            (SaveState::PlayerLookup { index }, SaveEvent::PlayerFound(id)) => r == (
                SaveState::PlayerUpdate { index, player_id: id },
                SaveAction::UpdatePlayer {
                    player_id: id,
                    username: lb.items[index as int].username,
                    avatar_url: lb.items[index as int].avatar_url,
                    region: lb.items[index as int].region,
                },
            ),
            (SaveState::PlayerLookup { index }, SaveEvent::PlayerMissing) => r == (
                SaveState::PlayerInsert { index },
                SaveAction::InsertPlayer {
                    rl_user_id: lb.items[index as int].rl_user_id,
                    username: lb.items[index as int].username,
                    region: lb.items[index as int].region,
                    avatar_url: lb.items[index as int].avatar_url,
                },
            ),
            (SaveState::PlayerUpdate { index, player_id }, SaveEvent::PlayerUpdated { .. }) => r == (
                SaveState::LatestMatch { index, player_id },
                SaveAction::SelectLatestMatch { player_id },
            ),
            (SaveState::PlayerInsert { index }, SaveEvent::PlayerInserted(id)) => r == (
                SaveState::LatestMatch { index, player_id: id },
                SaveAction::SelectLatestMatch { player_id: id },
            ),
            (SaveState::PlayerInsert { index }, SaveEvent::PlayerInsertFailed) => r == (
                SaveState::LatestMatch { index, player_id: NIL_ID },
                SaveAction::SelectLatestMatch { player_id: NIL_ID },
            ),
            (SaveState::LatestMatch { index, player_id }, SaveEvent::LatestMatchFound(m)) => {
                if is_same_match(m, lb.request->0, lb.items[index as int]) {
                    r == begin_entry(*lb, index + 1)
                } else {
                    r == (
                        SaveState::MatchInsert { index, player_id },
                        SaveAction::InsertMatch {
                            row: new_match_row(lb.request->0, lb.items[index as int]),
                        },
                    )
                }
            },
            (SaveState::LatestMatch { index, player_id }, SaveEvent::NoLatestMatch)
            | (SaveState::LatestMatch { index, player_id }, SaveEvent::LatestMatchFailed) => r == (
                SaveState::MatchInsert { index, player_id },
                SaveAction::InsertMatch { row: new_match_row(lb.request->0, lb.items[index as int]) },
            ),
            (SaveState::MatchInsert { index, player_id }, SaveEvent::MatchInserted(match_id)) => r
                == (SaveState::Link { index }, SaveAction::LinkMatch { player_id, match_id }),
            (SaveState::MatchInsert { index, .. }, SaveEvent::MatchInsertFailed) => r
                == begin_entry(*lb, index + 1),
            (SaveState::Link { index }, SaveEvent::Linked { .. }) => r == begin_entry(
                *lb,
                index + 1,
            ),
            _ => r == (SaveState::Finished, SaveAction::Finish),
        },
{
    match (state, event) {
        (SaveState::PlayerLookup { index }, SaveEvent::PlayerLookupFailed) => {
            begin_entry_exec(lb, index + 1)
        },
        (SaveState::PlayerLookup { index }, SaveEvent::PlayerFound(id)) => {
            let e = &lb.items[index];
            (
                SaveState::PlayerUpdate { index, player_id: id },
                SaveAction::UpdatePlayer {
                    player_id: id,
                    username: e.username.clone(),
                    avatar_url: clone_optional_text(&e.avatar_url),
                    region: e.region.clone(),
                },
            )
        },
        (SaveState::PlayerLookup { index }, SaveEvent::PlayerMissing) => {
            let e = &lb.items[index];
            (
                SaveState::PlayerInsert { index },
                SaveAction::InsertPlayer {
                    rl_user_id: e.rl_user_id,
                    username: e.username.clone(),
                    region: e.region.clone(),
                    avatar_url: clone_optional_text(&e.avatar_url),
                },
            )
        },
        (SaveState::PlayerUpdate { index, player_id }, SaveEvent::PlayerUpdated { .. }) => {
            (SaveState::LatestMatch { index, player_id }, SaveAction::SelectLatestMatch { player_id })
        },
        (SaveState::PlayerInsert { index }, SaveEvent::PlayerInserted(id)) => {
            (
                SaveState::LatestMatch { index, player_id: id },
                SaveAction::SelectLatestMatch { player_id: id },
            )
        },
        (SaveState::PlayerInsert { index }, SaveEvent::PlayerInsertFailed) => {
            (
                SaveState::LatestMatch { index, player_id: NIL_ID },
                SaveAction::SelectLatestMatch { player_id: NIL_ID },
            )
        },
        (SaveState::LatestMatch { index, player_id }, SaveEvent::LatestMatchFound(m)) => {
            let req = lb.request.as_ref().unwrap();
            let e = &lb.items[index];
            if same_match(&m, req, e) {
                begin_entry_exec(lb, index + 1)
            } else {
                (SaveState::MatchInsert { index, player_id }, SaveAction::InsertMatch { row: match_row(req, e) })
            }
        },
        (SaveState::LatestMatch { index, player_id }, SaveEvent::NoLatestMatch)
        | (SaveState::LatestMatch { index, player_id }, SaveEvent::LatestMatchFailed) => {
            let req = lb.request.as_ref().unwrap();
            let e = &lb.items[index];
            (SaveState::MatchInsert { index, player_id }, SaveAction::InsertMatch { row: match_row(req, e) })
        },
        (SaveState::MatchInsert { index, player_id }, SaveEvent::MatchInserted(match_id)) => {
            (SaveState::Link { index }, SaveAction::LinkMatch { player_id, match_id })
        },
        (SaveState::MatchInsert { index, .. }, SaveEvent::MatchInsertFailed) => {
            begin_entry_exec(lb, index + 1)
        },
        (SaveState::Link { index }, SaveEvent::Linked { .. }) => begin_entry_exec(lb, index + 1),
        _ => (SaveState::Finished, SaveAction::Finish),
    }
}

} // verus!
