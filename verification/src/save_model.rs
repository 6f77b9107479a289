//! What storing a page does to the tables, when every query succeeds: a
//! model of the player, match history and link tables, answered as the
//! database answers the queries that the storing steps send, and the laws
//! that hold of a whole run over a page.

use vstd::prelude::*;
use crate::leaderboard::{Leaderboard, LeaderboardEntry};
use crate::request::AgeOfEmpiresLeaderboardRequest;
use crate::save::{
    begin_entry, is_same_match, lemma_stored_snapshot_is_same_match, new_match_row, save_measure, save_state_fits, save_transition, state_index, stored_form,
    NewMatchRow, SaveAction, SaveEvent, SaveState,
};

verus! {

/// A row of the player table.
pub struct PlayerRecord {
    pub id: u128,
    pub rl_user_id: i64,
    pub username: String,
    pub region: String,
    pub avatar_url: Option<String>,
}

/// A row of the match history table.
pub struct MatchRecord {
    pub id: u128,
    pub row: NewMatchRow,
}

/// The three tables, and the identifier that the database gives next.
pub struct Tables {
    pub players: Seq<PlayerRecord>,
    pub matches: Seq<MatchRecord>,
    pub links: Seq<(u128, u128)>,
    pub next_id: u128,
}

/// Whether some player row has this leaderboard id.
pub open spec fn has_player(players: Seq<PlayerRecord>, rl_user_id: i64) -> bool {
    exists|i: int| 0 <= i < players.len() && (#[trigger] players[i]).rl_user_id == rl_user_id
}

/// The position of a player row with this leaderboard id.
pub open spec fn index_with(players: Seq<PlayerRecord>, rl_user_id: i64) -> int {
    choose|i: int| 0 <= i < players.len() && (#[trigger] players[i]).rl_user_id == rl_user_id
}

/// The identifier of a player row with this leaderboard id.
pub open spec fn player_with(players: Seq<PlayerRecord>, rl_user_id: i64) -> u128 {
    players[index_with(players, rl_user_id)].id
}

/// No two player rows share a leaderboard id.
pub open spec fn rl_unique(players: Seq<PlayerRecord>) -> bool {
    forall|i: int, j: int|
        0 <= i < players.len() && 0 <= j < players.len() && i != j ==> (#[trigger] players[i]).rl_user_id
            != (#[trigger] players[j]).rl_user_id
}

/// The latest match linked to a player: the last link made for it.
pub open spec fn latest_link(links: Seq<(u128, u128)>, player_id: u128) -> Option<u128>
    decreases links.len(),
{
    if links.len() == 0 {
        None
    } else if links.last().0 == player_id {
        Some(links.last().1)
    } else {
        latest_link(links.drop_last(), player_id)
    }
}

/// The row of the match history table with this identifier, the first one.
pub open spec fn match_with(matches: Seq<MatchRecord>, id: u128) -> Option<NewMatchRow>
    decreases matches.len(),
{
    if matches.len() == 0 {
        None
    } else {
        match match_with(matches.drop_last(), id) {
            Some(r) => Some(r),
            None => if matches.last().id == id {
                Some(matches.last().row)
            } else {
                None
            },
        }
    }
}

/// The latest snapshot of a player.
pub open spec fn latest_match(t: Tables, player_id: u128) -> Option<NewMatchRow> {
    match latest_link(t.links, player_id) {
        Some(mid) => match_with(t.matches, mid),
        None => None,
    }
}

/// A player row with new name, avatar and region when it has this id.
pub open spec fn updated(
    p: PlayerRecord,
    player_id: u128,
    username: String,
    avatar_url: Option<String>,
    region: String,
) -> PlayerRecord {
    if p.id == player_id {
        PlayerRecord { id: p.id, rl_user_id: p.rl_user_id, username, region, avatar_url }
    } else {
        p
    }
}

/// How the database runs a query that succeeds, and what it answers.
pub open spec fn db_step(t: Tables, action: SaveAction) -> (Tables, SaveEvent) {
    match action {
        SaveAction::SelectPlayer { rl_user_id } => (
            t,
            if has_player(t.players, rl_user_id) {
                SaveEvent::PlayerFound(player_with(t.players, rl_user_id))
            } else {
                SaveEvent::PlayerMissing
            },
        ),
        SaveAction::UpdatePlayer { player_id, username, avatar_url, region } => (
            Tables {
                players: t.players.map_values(
                    |p: PlayerRecord| updated(p, player_id, username, avatar_url, region),
                ),
                ..t
            },
            SaveEvent::PlayerUpdated { ok: true },
        ),
        SaveAction::InsertPlayer { rl_user_id, username, region, avatar_url } => (
            Tables {
                players: t.players.push(
                    PlayerRecord { id: t.next_id, rl_user_id, username, region, avatar_url },
                ),
                next_id: (t.next_id + 1) as u128,
                ..t
            },
            SaveEvent::PlayerInserted(t.next_id),
        ),
        SaveAction::SelectLatestMatch { player_id } => (
            t,
            match latest_match(t, player_id) {
                Some(row) => SaveEvent::LatestMatchFound(stored_form(row)),
                None => SaveEvent::NoLatestMatch,
            },
        ),
        SaveAction::InsertMatch { row } => (
            Tables {
                matches: t.matches.push(MatchRecord { id: t.next_id, row }),
                next_id: (t.next_id + 1) as u128,
                ..t
            },
            SaveEvent::MatchInserted(t.next_id),
        ),
        SaveAction::LinkMatch { player_id, match_id } => (
            Tables { links: t.links.push((player_id, match_id)), ..t },
            SaveEvent::Linked { ok: true },
        ),
        SaveAction::Finish => (t, SaveEvent::PlayerLookupFailed),
    }
}

/// Runs the storing steps from a state and its pending query until the page
/// is done, every query succeeding.
pub open spec fn run_page(lb: Leaderboard, state: SaveState, action: SaveAction, t: Tables) -> Tables
    decreases save_measure(lb, state),
{
    if action is Finish {
        t
    } else {
        let (t2, event) = db_step(t, action);
        let (s2, a2) = save_transition(lb, state, event);
        if 0 <= save_measure(lb, s2) < save_measure(lb, state) {
            run_page(lb, s2, a2, t2)
        } else {
            t2
        }
    }
}

/// The tables after a page is stored, every query succeeding.
pub open spec fn store_page(lb: Leaderboard, t: Tables) -> Tables {
    run_page(lb, begin_entry(lb, 0).0, begin_entry(lb, 0).1, t)
}

/// The query that is pending in a state.
pub open spec fn action_fits(lb: Leaderboard, s: SaveState, a: SaveAction) -> bool {
    match s {
        SaveState::PlayerLookup { index } => a == SaveAction::SelectPlayer {
            rl_user_id: lb.items[index as int].rl_user_id,
        },
        SaveState::PlayerUpdate { index, player_id } => a == SaveAction::UpdatePlayer {
            player_id,
            username: lb.items[index as int].username,
            avatar_url: lb.items[index as int].avatar_url,
            region: lb.items[index as int].region,
        },
        SaveState::PlayerInsert { index } => a == SaveAction::InsertPlayer {
            rl_user_id: lb.items[index as int].rl_user_id,
            username: lb.items[index as int].username,
            region: lb.items[index as int].region,
            avatar_url: lb.items[index as int].avatar_url,
        },
        SaveState::LatestMatch { player_id, .. } => a == SaveAction::SelectLatestMatch { player_id },
        SaveState::MatchInsert { index, .. } => a == SaveAction::InsertMatch {
            row: new_match_row(lb.request->0, lb.items[index as int]),
        },
        SaveState::Link { .. } => a is LinkMatch,
        SaveState::Finished => a is Finish,
    }
}

/// How many entries of the page have a player row for sure.
pub open spec fn covered(lb: Leaderboard, s: SaveState) -> int {
    match s {
        SaveState::PlayerLookup { index } => index as int,
        SaveState::PlayerInsert { index } => index as int,
        SaveState::Finished => lb.items.len() as int,
        _ => state_index(s) + 1,
    }
}

/// What holds of the player table while a page is stored from `t0`.
pub open spec fn players_inv(lb: Leaderboard, t0: Tables, s: SaveState, a: SaveAction, t: Tables) -> bool {
    &&& lb.request is Some
    &&& save_state_fits(lb, s)
    &&& action_fits(lb, s, a)
    &&& rl_unique(t.players)
    &&& t0.players.len() <= t.players.len()
    &&& forall|i: int|
        0 <= i < t0.players.len() ==> (#[trigger] t.players[i]).id == t0.players[i].id
            && t.players[i].rl_user_id == t0.players[i].rl_user_id
    &&& forall|rl: i64|
        has_player(t.players, rl) <==> has_player(t0.players, rl) || exists|k: int|
            0 <= k < covered(lb, s) && (#[trigger] lb.items[k]).rl_user_id == rl
    &&& s is PlayerInsert ==> !has_player(t.players, lb.items[state_index(s)].rl_user_id)
    &&& s is PlayerUpdate ==> has_player(t.players, lb.items[state_index(s)].rl_user_id)
}

/// Every state that a step leads to has its pending query.
proof fn lemma_transition_fits(lb: Leaderboard, s: SaveState, e: SaveEvent)
    requires
        lb.request is Some,
        save_state_fits(lb, s),
    ensures
        save_state_fits(lb, save_transition(lb, s, e).0),
        action_fits(lb, save_transition(lb, s, e).0, save_transition(lb, s, e).1),
        !(s is Finished) ==> 0 <= save_measure(lb, save_transition(lb, s, e).0) < save_measure(lb, s),
{
}

/// One step of the run keeps what holds of the player table.
proof fn lemma_players_step(lb: Leaderboard, t0: Tables, s: SaveState, a: SaveAction, t: Tables)
    requires
        players_inv(lb, t0, s, a, t),
        !(a is Finish),
    ensures
        players_inv(
            lb,
            t0,
            save_transition(lb, s, db_step(t, a).1).0,
            save_transition(lb, s, db_step(t, a).1).1,
            db_step(t, a).0,
        ),
        0 <= save_measure(lb, save_transition(lb, s, db_step(t, a).1).0) < save_measure(lb, s),
{
    let (t2, e) = db_step(t, a);
    let (s2, a2) = save_transition(lb, s, e);
    lemma_transition_fits(lb, s, e);
    match s {
        SaveState::PlayerLookup { index } => {
            let rl = lb.items[index as int].rl_user_id;
            if has_player(t.players, rl) {
                assert(covered(lb, s2) == index + 1);
            }
            assert forall|r: i64| has_player(t2.players, r) <==> has_player(t0.players, r) || exists|k: int|
                0 <= k < covered(lb, s2) && (#[trigger] lb.items[k]).rl_user_id == r by {
                if exists|k: int| 0 <= k < covered(lb, s2) && (#[trigger] lb.items[k]).rl_user_id == r {
                    let k = choose|k: int| 0 <= k < covered(lb, s2) && (#[trigger] lb.items[k]).rl_user_id == r;
                    if k == index {
                        assert(has_player(t.players, rl));
                    }
                }
            }
        },
        SaveState::PlayerUpdate { index, player_id } => {
            let ps = t2.players;
            assert(ps.len() == t.players.len());
            assert forall|i: int| 0 <= i < ps.len() implies (#[trigger] ps[i]).rl_user_id
                == t.players[i].rl_user_id && ps[i].id == t.players[i].id by {}
            assert forall|r: i64| has_player(ps, r) <==> has_player(t.players, r) by {
                if has_player(ps, r) {
                    let i = choose|i: int| 0 <= i < ps.len() && (#[trigger] ps[i]).rl_user_id == r;
                    assert(t.players[i].rl_user_id == r);
                }
                if has_player(t.players, r) {
                    let i = choose|i: int| 0 <= i < t.players.len() && (#[trigger] t.players[i]).rl_user_id == r;
                    assert(ps[i].rl_user_id == r);
                }
            }
            assert(rl_unique(ps)) by {
                assert forall|i: int, j: int|
                    0 <= i < ps.len() && 0 <= j < ps.len() && i != j implies (#[trigger] ps[i]).rl_user_id
                        != (#[trigger] ps[j]).rl_user_id by {
                    assert(ps[i].rl_user_id == t.players[i].rl_user_id);
                    assert(ps[j].rl_user_id == t.players[j].rl_user_id);
                }
            }
        },
        SaveState::PlayerInsert { index } => {
            let ps = t2.players;
            let rl = lb.items[index as int].rl_user_id;
            assert(ps[ps.len() - 1].rl_user_id == rl);
            assert(rl_unique(ps)) by {
                assert forall|i: int, j: int|
                    0 <= i < ps.len() && 0 <= j < ps.len() && i != j implies (#[trigger] ps[i]).rl_user_id
                        != (#[trigger] ps[j]).rl_user_id by {
                    if i < t.players.len() && j < t.players.len() {
                        assert(ps[i] == t.players[i] && ps[j] == t.players[j]);
                    } else if i < t.players.len() {
                        assert(ps[i] == t.players[i]);
                        assert(!has_player(t.players, rl));
                    } else {
                        assert(ps[j] == t.players[j]);
                        assert(!has_player(t.players, rl));
                    }
                }
            }
            assert forall|r: i64| has_player(ps, r) <==> has_player(t.players, r) || r == rl by {
                if has_player(ps, r) {
                    let i = choose|i: int| 0 <= i < ps.len() && (#[trigger] ps[i]).rl_user_id == r;
                    if i < t.players.len() {
                        assert(t.players[i] == ps[i]);
                    }
                }
                if has_player(t.players, r) {
                    let i = choose|i: int| 0 <= i < t.players.len() && (#[trigger] t.players[i]).rl_user_id == r;
                    assert(ps[i] == t.players[i]);
                }
                if r == rl {
                    assert(ps[ps.len() - 1].rl_user_id == r);
                }
            }
            assert forall|i: int| 0 <= i < t0.players.len() implies (#[trigger] ps[i]).id == t0.players[i].id
                && ps[i].rl_user_id == t0.players[i].rl_user_id by {
                assert(ps[i] == t.players[i]);
            }
            assert forall|r: i64| has_player(t2.players, r) <==> has_player(t0.players, r) || exists|k: int|
                0 <= k < covered(lb, s2) && (#[trigger] lb.items[k]).rl_user_id == r by {
                if r == rl {
                    assert(lb.items[index as int].rl_user_id == r);
                }
                if exists|k: int| 0 <= k < covered(lb, s2) && (#[trigger] lb.items[k]).rl_user_id == r {
                    let k = choose|k: int| 0 <= k < covered(lb, s2) && (#[trigger] lb.items[k]).rl_user_id == r;
                    if k < index {
                        assert(exists|k2: int| 0 <= k2 < covered(lb, s) && (#[trigger] lb.items[k2]).rl_user_id == r);
                    }
                }
            }
        },
        SaveState::LatestMatch { index, .. } => {
            assert forall|r: i64| has_player(t2.players, r) <==> has_player(t0.players, r) || exists|k: int|
                0 <= k < covered(lb, s2) && (#[trigger] lb.items[k]).rl_user_id == r by {
                if exists|k: int| 0 <= k < covered(lb, s) && (#[trigger] lb.items[k]).rl_user_id == r {
                    let k = choose|k: int| 0 <= k < covered(lb, s) && (#[trigger] lb.items[k]).rl_user_id == r;
                    assert(0 <= k < covered(lb, s2));
                }
            }
        },
        SaveState::MatchInsert { .. } => {},
        SaveState::Link { index } => {
            assert forall|r: i64| has_player(t2.players, r) <==> has_player(t0.players, r) || exists|k: int|
                0 <= k < covered(lb, s2) && (#[trigger] lb.items[k]).rl_user_id == r by {
                if exists|k: int| 0 <= k < covered(lb, s) && (#[trigger] lb.items[k]).rl_user_id == r {
                    let k = choose|k: int| 0 <= k < covered(lb, s) && (#[trigger] lb.items[k]).rl_user_id == r;
                    assert(0 <= k < covered(lb, s2));
                }
            }
        },
        SaveState::Finished => {},
    }
}

/// A whole run keeps what holds of the player table, and ends with every
/// entry of the page covered.
proof fn lemma_players_run(lb: Leaderboard, t0: Tables, s: SaveState, a: SaveAction, t: Tables)
    requires
        players_inv(lb, t0, s, a, t),
    ensures
        players_inv(lb, t0, SaveState::Finished, SaveAction::Finish, run_page(lb, s, a, t)),
    decreases save_measure(lb, s),
{
    if a is Finish {
        assert(s is Finished);
    } else {
        lemma_players_step(lb, t0, s, a, t);
        let (t2, e) = db_step(t, a);
        let (s2, a2) = save_transition(lb, s, e);
        lemma_players_run(lb, t0, s2, a2, t2);
    }
}

/// Storing a page, every query succeeding, keeps the leaderboard ids of the
/// player table unique, deletes no player row and changes no row's ids, and
/// leaves exactly the players that were there and those of the page.
pub proof fn lemma_store_page_players(lb: Leaderboard, t: Tables)
    requires
        lb.request is Some,
        rl_unique(t.players),
    ensures
        rl_unique(store_page(lb, t).players),
        t.players.len() <= store_page(lb, t).players.len(),
        forall|i: int|
            0 <= i < t.players.len() ==> (#[trigger] store_page(lb, t).players[i]).id == t.players[i].id
                && store_page(lb, t).players[i].rl_user_id == t.players[i].rl_user_id,
        forall|rl: i64|
            has_player(store_page(lb, t).players, rl) <==> has_player(t.players, rl) || exists|k: int|
                0 <= k < lb.items.len() && (#[trigger] lb.items[k]).rl_user_id == rl,
{
    let (s, a) = begin_entry(lb, 0);
    assert(players_inv(lb, t, s, a, t));
    lemma_players_run(lb, t, s, a, t);
}


/// No two player rows share an identifier.
pub open spec fn id_unique(players: Seq<PlayerRecord>) -> bool {
    forall|i: int, j: int|
        0 <= i < players.len() && 0 <= j < players.len() && i != j ==> (#[trigger] players[i]).id
            != (#[trigger] players[j]).id
}

/// Every identifier in use lies below the one that the database gives next.
pub open spec fn ids_below(t: Tables) -> bool {
    &&& forall|i: int| 0 <= i < t.players.len() ==> (#[trigger] t.players[i]).id < t.next_id
    &&& forall|j: int| 0 <= j < t.matches.len() ==> (#[trigger] t.matches[j]).id < t.next_id
}

/// No two entries of the page are the same player.
pub open spec fn entries_distinct(lb: Leaderboard) -> bool {
    forall|i: int, j: int|
        0 <= i < lb.items.len() && 0 <= j < lb.items.len() && i != j ==> (#[trigger] lb.items[i]).rl_user_id
            != (#[trigger] lb.items[j]).rl_user_id
}

/// An entry is stored: its player row carries its name, region and avatar,
/// and the player's latest snapshot shows its standing.
pub open spec fn entry_stored(t: Tables, req: AgeOfEmpiresLeaderboardRequest, e: LeaderboardEntry) -> bool {
    &&& has_player(t.players, e.rl_user_id)
    &&& t.players[index_with(t.players, e.rl_user_id)].username == e.username
    &&& t.players[index_with(t.players, e.rl_user_id)].region == e.region
    &&& t.players[index_with(t.players, e.rl_user_id)].avatar_url == e.avatar_url
    &&& latest_match(t, player_with(t.players, e.rl_user_id)) matches Some(row) && is_same_match(
        stored_form(row),
        req,
        e,
    )
}

/// With unique leaderboard ids, the row found for an id is the one that has it.
proof fn lemma_index_with(players: Seq<PlayerRecord>, rl: i64, j: int)
    requires
        rl_unique(players),
        0 <= j < players.len(),
        players[j].rl_user_id == rl,
    ensures
        index_with(players, rl) == j,
{
    assert(has_player(players, rl));
    let i = index_with(players, rl);
    assert(players[i].rl_user_id == rl);
}

/// A match row appended after a row with the same identifier does not hide it.
proof fn lemma_match_with_push(matches: Seq<MatchRecord>, x: MatchRecord, id: u128)
    ensures
        match_with(matches, id) is Some ==> match_with(matches.push(x), id) == match_with(matches, id),
        match_with(matches, id) is None && x.id == id ==> match_with(matches.push(x), id) == Some(x.row),
{
    assert(matches.push(x).drop_last() =~= matches);
}

/// No match row has an identifier at or above the next one.
proof fn lemma_match_with_below(matches: Seq<MatchRecord>, id: u128)
    requires
        forall|j: int| 0 <= j < matches.len() ==> (#[trigger] matches[j]).id < id,
    ensures
        match_with(matches, id) is None,
    decreases matches.len(),
{
    if matches.len() > 0 {
        let d = matches.drop_last();
        assert forall|j: int| 0 <= j < d.len() implies (#[trigger] d[j]).id < id by {
            assert(d[j] == matches[j]);
        }
        lemma_match_with_below(d, id);
    }
}

/// The entries of the page that are done in a state.
pub open spec fn done(lb: Leaderboard, s: SaveState) -> int {
    if s is Finished {
        lb.items.len() as int
    } else {
        state_index(s)
    }
}

/// The identifiers that the rest of the page may still need.
pub open spec fn allowance(lb: Leaderboard, s: SaveState) -> int {
    let left = lb.items.len() - state_index(s);
    match s {
        SaveState::LatestMatch { .. } => 2 * left - 1,
        SaveState::MatchInsert { .. } => 2 * left - 1,
        SaveState::Link { .. } => 2 * left - 2,
        SaveState::Finished => 0,
        _ => 2 * left,
    }
}

/// The player row of the entry that a state works on carries the entry's
/// name, region and avatar, under the identifier `pid`.
pub open spec fn entry_row(lb: Leaderboard, t: Tables, i: int, pid: u128) -> bool {
    &&& has_player(t.players, lb.items[i].rl_user_id)
    &&& pid == player_with(t.players, lb.items[i].rl_user_id)
    &&& t.players[index_with(t.players, lb.items[i].rl_user_id)].username == lb.items[i].username
    &&& t.players[index_with(t.players, lb.items[i].rl_user_id)].region == lb.items[i].region
    &&& t.players[index_with(t.players, lb.items[i].rl_user_id)].avatar_url == lb.items[i].avatar_url
}

/// What holds while a page is stored: the tables stay consistent, the
/// entries done are stored, and the entry at hand is as far as its state says.
pub open spec fn store_inv(lb: Leaderboard, s: SaveState, a: SaveAction, t: Tables) -> bool {
    &&& lb.request is Some
    &&& entries_distinct(lb)
    &&& save_state_fits(lb, s)
    &&& action_fits(lb, s, a)
    &&& rl_unique(t.players)
    &&& id_unique(t.players)
    &&& ids_below(t)
    &&& t.next_id + allowance(lb, s) <= u128::MAX
    &&& forall|k: int| 0 <= k < done(lb, s) ==> entry_stored(t, lb.request->0, #[trigger] lb.items[k])
    &&& match s {
        SaveState::PlayerUpdate { index, player_id } => has_player(t.players, lb.items[index as int].rl_user_id)
            && player_id == player_with(t.players, lb.items[index as int].rl_user_id),
        SaveState::PlayerInsert { index } => !has_player(t.players, lb.items[index as int].rl_user_id),
        SaveState::LatestMatch { index, player_id } => entry_row(lb, t, index as int, player_id),
        SaveState::MatchInsert { index, player_id } => entry_row(lb, t, index as int, player_id),
        SaveState::Link { index } => {
            &&& entry_row(lb, t, index as int, a->LinkMatch_player_id)
            &&& match_with(t.matches, a->LinkMatch_match_id) == Some(
                new_match_row(lb.request->0, lb.items[index as int]),
            )
        },
        _ => true,
    }
}

/// The entries done stay stored when the player row of another entry is
/// updated.
proof fn lemma_kept_by_update(
    t: Tables,
    lb: Leaderboard,
    i: int,
    pid: u128,
)
    requires
        lb.request is Some,
        entries_distinct(lb),
        0 <= i < lb.items.len(),
        rl_unique(t.players),
        id_unique(t.players),
        has_player(t.players, lb.items[i].rl_user_id),
        pid == player_with(t.players, lb.items[i].rl_user_id),
    ensures
        ({
            let t2 = db_step(
                t,
                SaveAction::UpdatePlayer {
                    player_id: pid,
                    username: lb.items[i].username,
                    avatar_url: lb.items[i].avatar_url,
                    region: lb.items[i].region,
                },
            ).0;
            &&& t2.matches == t.matches && t2.links == t.links && t2.next_id == t.next_id
            &&& t2.players.len() == t.players.len()
            &&& rl_unique(t2.players) && id_unique(t2.players)
            &&& forall|j: int| 0 <= j < t.players.len() ==> (#[trigger] t2.players[j]).id == t.players[j].id
                && t2.players[j].rl_user_id == t.players[j].rl_user_id
            &&& forall|r: i64| has_player(t2.players, r) == has_player(t.players, r)
            &&& forall|r: i64| has_player(t.players, r) ==> index_with(t2.players, r) == index_with(t.players, r)
            &&& entry_row(lb, t2, i, pid)
            &&& forall|k: int| 0 <= k < lb.items.len() && k != i && entry_stored(t, lb.request->0, #[trigger] lb.items[k])
                ==> entry_stored(t2, lb.request->0, lb.items[k])
        }),
{
    let e = lb.items[i];
    let t2 = db_step(
        t,
        SaveAction::UpdatePlayer { player_id: pid, username: e.username, avatar_url: e.avatar_url, region: e.region },
    ).0;
    let ps = t.players;
    let ps2 = t2.players;
    let ji = index_with(ps, e.rl_user_id);
    assert forall|j: int| 0 <= j < ps.len() implies (#[trigger] ps2[j]).id == ps[j].id && ps2[j].rl_user_id
        == ps[j].rl_user_id by {}
    assert(rl_unique(ps2)) by {
        assert forall|a: int, b: int| 0 <= a < ps2.len() && 0 <= b < ps2.len() && a != b implies (
        #[trigger] ps2[a]).rl_user_id != (#[trigger] ps2[b]).rl_user_id by {
            assert(ps2[a].rl_user_id == ps[a].rl_user_id && ps2[b].rl_user_id == ps[b].rl_user_id);
        }
    }
    assert(id_unique(ps2)) by {
        assert forall|a: int, b: int| 0 <= a < ps2.len() && 0 <= b < ps2.len() && a != b implies (
        #[trigger] ps2[a]).id != (#[trigger] ps2[b]).id by {
            assert(ps2[a].id == ps[a].id && ps2[b].id == ps[b].id);
        }
    }
    assert forall|r: i64| has_player(ps2, r) == has_player(ps, r) by {
        if has_player(ps2, r) {
            let j = choose|j: int| 0 <= j < ps2.len() && (#[trigger] ps2[j]).rl_user_id == r;
            assert(ps[j].rl_user_id == r);
        }
        if has_player(ps, r) {
            let j = choose|j: int| 0 <= j < ps.len() && (#[trigger] ps[j]).rl_user_id == r;
            assert(ps2[j].rl_user_id == r);
        }
    }
    assert forall|r: i64| has_player(ps, r) implies index_with(ps2, r) == index_with(ps, r) by {
        let j = index_with(ps, r);
        assert(ps2[j].rl_user_id == r);
        lemma_index_with(ps2, r, j);
    }
    assert(has_player(ps, e.rl_user_id));
    assert(ps[ji].rl_user_id == e.rl_user_id);
    assert(ps2[ji].id == pid);
    assert forall|k: int| 0 <= k < lb.items.len() && k != i && entry_stored(t, lb.request->0, #[trigger] lb.items[k])
        implies entry_stored(t2, lb.request->0, lb.items[k]) by {
        let ek = lb.items[k];
        let jk = index_with(ps, ek.rl_user_id);
        assert(ps[jk].rl_user_id == ek.rl_user_id);
        assert(ek.rl_user_id != e.rl_user_id);
        assert(jk != ji);
        assert(ps[jk].id != pid);
        assert(ps2[jk] == ps[jk]);
        assert(index_with(ps2, ek.rl_user_id) == jk);
    }
}

/// One step of a run keeps what holds while a page is stored.
proof fn lemma_store_step(lb: Leaderboard, s: SaveState, a: SaveAction, t: Tables)
    requires
        store_inv(lb, s, a, t),
        !(a is Finish),
    ensures
        store_inv(
            lb,
            save_transition(lb, s, db_step(t, a).1).0,
            save_transition(lb, s, db_step(t, a).1).1,
            db_step(t, a).0,
        ),
        0 <= save_measure(lb, save_transition(lb, s, db_step(t, a).1).0) < save_measure(lb, s),
{
    let (t2, e) = db_step(t, a);
    let (s2, a2) = save_transition(lb, s, e);
    let req = lb.request->0;
    lemma_transition_fits(lb, s, e);
    match s {
        SaveState::PlayerLookup { index } => {
            let rl = lb.items[index as int].rl_user_id;
            if has_player(t.players, rl) {
                assert(s2 == SaveState::PlayerUpdate { index, player_id: player_with(t.players, rl) });
            }
        },
        SaveState::PlayerUpdate { index, player_id } => {
            lemma_kept_by_update(t, lb, index as int, player_id);
            assert forall|j: int| 0 <= j < t2.players.len() implies (#[trigger] t2.players[j]).id < t2.next_id by {
                assert(t2.players[j].id == t.players[j].id);
            }
        },
        SaveState::PlayerInsert { index } => {
            let ei = lb.items[index as int];
            let ps = t.players;
            let ps2 = t2.players;
            let n = ps.len() as int;
            assert(ps2 == ps.push(PlayerRecord {
                id: t.next_id,
                rl_user_id: ei.rl_user_id,
                username: ei.username,
                region: ei.region,
                avatar_url: ei.avatar_url,
            }));
            assert(rl_unique(ps2)) by {
                assert forall|x: int, y: int| 0 <= x < ps2.len() && 0 <= y < ps2.len() && x != y implies (
                #[trigger] ps2[x]).rl_user_id != (#[trigger] ps2[y]).rl_user_id by {
                    if x < n && y < n {
                        assert(ps2[x] == ps[x] && ps2[y] == ps[y]);
                    } else if x < n {
                        assert(ps2[x] == ps[x]);
                        if ps[x].rl_user_id == ei.rl_user_id {
                            assert(has_player(ps, ei.rl_user_id));
                        }
                    } else {
                        assert(ps2[y] == ps[y]);
                        if ps[y].rl_user_id == ei.rl_user_id {
                            assert(has_player(ps, ei.rl_user_id));
                        }
                    }
                }
            }
            assert(id_unique(ps2)) by {
                assert forall|x: int, y: int| 0 <= x < ps2.len() && 0 <= y < ps2.len() && x != y implies (
                #[trigger] ps2[x]).id != (#[trigger] ps2[y]).id by {
                    if x < n && y < n {
                        assert(ps2[x] == ps[x] && ps2[y] == ps[y]);
                    } else if x < n {
                        assert(ps2[x] == ps[x]);
                        assert(ps[x].id < t.next_id);
                    } else {
                        assert(ps2[y] == ps[y]);
                        assert(ps[y].id < t.next_id);
                    }
                }
            }
            assert(ps2[n].rl_user_id == ei.rl_user_id);
            lemma_index_with(ps2, ei.rl_user_id, n);
            assert(has_player(ps2, ei.rl_user_id));
            assert forall|j: int| 0 <= j < ps2.len() implies (#[trigger] ps2[j]).id < t2.next_id by {
                if j < n {
                    assert(ps2[j] == ps[j]);
                }
            }
            assert forall|j: int| 0 <= j < t2.matches.len() implies (#[trigger] t2.matches[j]).id < t2.next_id by {}
            assert forall|k: int| 0 <= k < done(lb, s2) implies entry_stored(t2, req, #[trigger] lb.items[k]) by {
                let ek = lb.items[k];
                assert(entry_stored(t, req, ek));
                let jk = index_with(ps, ek.rl_user_id);
                assert(ps[jk].rl_user_id == ek.rl_user_id);
                assert(ps2[jk] == ps[jk]);
                lemma_index_with(ps2, ek.rl_user_id, jk);
                assert(has_player(ps2, ek.rl_user_id));
            }
        },
        SaveState::LatestMatch { index, player_id } => {
            let ei = lb.items[index as int];
            if e is LatestMatchFound {
                let row = latest_match(t, player_id)->0;
                if is_same_match(stored_form(row), req, ei) {
                    assert(entry_stored(t, req, ei));
                    assert forall|k: int| 0 <= k < done(lb, s2) implies entry_stored(t2, req, #[trigger] lb.items[k]) by {
                        if k < index {
                        } else {
                            assert(k == index);
                        }
                    }
                }
            }
        },
        SaveState::MatchInsert { index, player_id } => {
            let ei = lb.items[index as int];
            let row = new_match_row(req, ei);
            let x = MatchRecord { id: t.next_id, row };
            assert(t2.matches == t.matches.push(x));
            lemma_match_with_below(t.matches, t.next_id);
            lemma_match_with_push(t.matches, x, t.next_id);
            assert forall|j: int| 0 <= j < t2.matches.len() implies (#[trigger] t2.matches[j]).id < t2.next_id by {
                if j < t.matches.len() {
                    assert(t2.matches[j] == t.matches[j]);
                }
            }
            assert forall|j: int| 0 <= j < t2.players.len() implies (#[trigger] t2.players[j]).id < t2.next_id by {}
            assert forall|k: int| 0 <= k < done(lb, s2) implies entry_stored(t2, req, #[trigger] lb.items[k]) by {
                let ek = lb.items[k];
                assert(entry_stored(t, req, ek));
                let pk = player_with(t.players, ek.rl_user_id);
                let mk = latest_link(t.links, pk)->0;
                lemma_match_with_push(t.matches, x, mk);
            }
        },
        SaveState::Link { index } => {
            let ei = lb.items[index as int];
            let pid = a->LinkMatch_player_id;
            let mid = a->LinkMatch_match_id;
            assert(t2.links == t.links.push((pid, mid)));
            assert(t2.links.drop_last() =~= t.links);
            assert(latest_link(t2.links, pid) == Some(mid));
            lemma_stored_snapshot_is_same_match(req, ei);
            assert(entry_stored(t2, req, ei));
            assert forall|k: int| 0 <= k < done(lb, s2) implies entry_stored(t2, req, #[trigger] lb.items[k]) by {
                let ek = lb.items[k];
                if k < index {
                    assert(entry_stored(t, req, ek));
                    let jk = index_with(t.players, ek.rl_user_id);
                    let ji = index_with(t.players, ei.rl_user_id);
                    assert(t.players[jk].rl_user_id == ek.rl_user_id);
                    assert(t.players[ji].rl_user_id == ei.rl_user_id);
                    assert(ek.rl_user_id != ei.rl_user_id);
                    assert(jk != ji);
                    assert(latest_link(t2.links, t.players[jk].id) == latest_link(t.links, t.players[jk].id));
                } else {
                    assert(k == index);
                }
            }
        },
        SaveState::Finished => {},
    }
}

/// A whole run keeps what holds while a page is stored, and ends with every
/// entry stored.
proof fn lemma_store_run(lb: Leaderboard, s: SaveState, a: SaveAction, t: Tables)
    requires
        store_inv(lb, s, a, t),
    ensures
        store_inv(lb, SaveState::Finished, SaveAction::Finish, run_page(lb, s, a, t)),
    decreases save_measure(lb, s),
{
    if a is Finish {
        assert(s is Finished);
    } else {
        lemma_store_step(lb, s, a, t);
        let (t2, e) = db_step(t, a);
        let (s2, a2) = save_transition(lb, s, e);
        lemma_store_run(lb, s2, a2, t2);
    }
}


/// What holds while a page is stored again on tables where it is stored:
/// the tables do not change and no insertion comes up.
pub open spec fn again_inv(lb: Leaderboard, s: SaveState, a: SaveAction, t: Tables) -> bool {
    &&& lb.request is Some
    &&& save_state_fits(lb, s)
    &&& action_fits(lb, s, a)
    &&& rl_unique(t.players)
    &&& id_unique(t.players)
    &&& forall|k: int| 0 <= k < lb.items.len() ==> entry_stored(t, lb.request->0, #[trigger] lb.items[k])
    &&& match s {
        SaveState::PlayerLookup { .. } => true,
        SaveState::PlayerUpdate { index, player_id } => player_id == player_with(
            t.players,
            lb.items[index as int].rl_user_id,
        ),
        SaveState::LatestMatch { index, player_id } => player_id == player_with(
            t.players,
            lb.items[index as int].rl_user_id,
        ),
        SaveState::Finished => true,
        _ => false,
    }
}

/// One step over tables where the page is stored changes nothing.
proof fn lemma_again_step(lb: Leaderboard, s: SaveState, a: SaveAction, t: Tables)
    requires
        again_inv(lb, s, a, t),
        !(a is Finish),
    ensures
        db_step(t, a).0 == t,
        again_inv(lb, save_transition(lb, s, db_step(t, a).1).0, save_transition(lb, s, db_step(t, a).1).1, t),
        0 <= save_measure(lb, save_transition(lb, s, db_step(t, a).1).0) < save_measure(lb, s),
{
    let (t2, e) = db_step(t, a);
    let req = lb.request->0;
    lemma_transition_fits(lb, s, e);
    match s {
        SaveState::PlayerLookup { index } => {
            assert(entry_stored(t, req, lb.items[index as int]));
        },
        SaveState::PlayerUpdate { index, player_id } => {
            let ei = lb.items[index as int];
            assert(entry_stored(t, req, ei));
            let ps = t.players;
            let ji = index_with(ps, ei.rl_user_id);
            assert(ps[ji].rl_user_id == ei.rl_user_id);
            let ps2 = ps.map_values(
                |p: PlayerRecord| updated(p, player_id, ei.username, ei.avatar_url, ei.region),
            );
            assert forall|j: int| 0 <= j < ps.len() implies ps2[j] == ps[j] by {
                if ps[j].id == player_id {
                    assert(j == ji);
                }
            }
            assert(ps2 =~= ps);
            assert(t2 == t);
        },
        SaveState::LatestMatch { index, player_id } => {
            assert(entry_stored(t, req, lb.items[index as int]));
        },
        _ => {},
    }
}

/// Running the rest of a page over tables where it is stored changes nothing.
proof fn lemma_again_run(lb: Leaderboard, s: SaveState, a: SaveAction, t: Tables)
    requires
        again_inv(lb, s, a, t),
    ensures
        run_page(lb, s, a, t) == t,
    decreases save_measure(lb, s),
{
    if !(a is Finish) {
        lemma_again_step(lb, s, a, t);
        let (t2, e) = db_step(t, a);
        let (s2, a2) = save_transition(lb, s, e);
        lemma_again_run(lb, s2, a2, t2);
    }
}

/// Storing a page, every query succeeding, leaves every entry stored: its
/// player row carries its name, region and avatar, and the player's latest
/// snapshot shows its standing.
pub proof fn lemma_store_page_stores_entries(lb: Leaderboard, t: Tables)
    requires
        lb.request is Some,
        entries_distinct(lb),
        rl_unique(t.players),
        id_unique(t.players),
        ids_below(t),
        t.next_id + 2 * lb.items.len() <= u128::MAX,
    ensures
        rl_unique(store_page(lb, t).players),
        id_unique(store_page(lb, t).players),
        forall|k: int|
            0 <= k < lb.items.len() ==> entry_stored(store_page(lb, t), lb.request->0, #[trigger] lb.items[k]),
{
    let (s, a) = begin_entry(lb, 0);
    assert(store_inv(lb, s, a, t));
    lemma_store_run(lb, s, a, t);
}

/// Storing the same page twice, every query succeeding and every new snapshot
/// being the latest of its player, changes nothing the second time: no
/// player, snapshot or link is added and no player row changes.
pub proof fn lemma_store_page_twice(lb: Leaderboard, t: Tables)
    requires
        lb.request is Some,
        entries_distinct(lb),
        rl_unique(t.players),
        id_unique(t.players),
        ids_below(t),
        t.next_id + 2 * lb.items.len() <= u128::MAX,
    ensures
        store_page(lb, store_page(lb, t)) == store_page(lb, t),
{
    lemma_store_page_stores_entries(lb, t);
    let t1 = store_page(lb, t);
    let (s, a) = begin_entry(lb, 0);
    assert(again_inv(lb, s, a, t1));
    lemma_again_run(lb, s, a, t1);
}

} // verus!
