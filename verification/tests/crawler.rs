use age4::actors::{CrawlerActor, DBActor, GetUser};
use age4::crawl::{
    attach_request, check_status, crawl_start, crawl_step, leaderboard_request, CrawlAction,
    CrawlState, FetchOutcome,
};
use age4::leaderboard::{Leaderboard, LeaderboardEntry};
use age4::request::{MatchType, Region, TeamSize, Versus};
use age4::save::{save_start, save_step, NewMatchRow, SaveAction, SaveEvent, SaveState, StoredMatch};

fn entry(id: i64, name: &str) -> LeaderboardEntry {
    LeaderboardEntry {
        rl_user_id: id,
        username: name.to_string(),
        avatar_url: Some(format!("https://avatars/{}", id)),
        elo: 1500,
        elo_rating: 1490,
        rank: 3,
        region: "eu".to_string(),
        wins: 20,
        losses: 5,
        win_streak: 2,
    }
}

fn page(team_size: Option<TeamSize>, items: Vec<LeaderboardEntry>) -> Leaderboard {
    let mut req = leaderboard_request(1, TeamSize::T1v1);
    req.team_size = team_size;
    Leaderboard { request: Some(req), count: items.len() as u32, items }
}

#[test]
fn crawl_fetches_every_page_in_order() {
    let (mut state, action) = crawl_start();
    assert_eq!(action, CrawlAction::Fetch { page: 1, pause_seconds: 0 });
    let (s, step) = crawl_step(state, FetchOutcome::Fetched { page_count: 3 });
    assert!(step.save_page);
    assert_eq!(step.next, CrawlAction::Fetch { page: 2, pause_seconds: 2 });
    state = s;
    let (s, step) = crawl_step(state, FetchOutcome::Fetched { page_count: 0 });
    assert!(step.save_page);
    assert_eq!(step.next, CrawlAction::Fetch { page: 3, pause_seconds: 2 });
    state = s;
    let (s, step) = crawl_step(state, FetchOutcome::Fetched { page_count: 0 });
    assert!(step.save_page);
    assert_eq!(step.next, CrawlAction::Stop);
    assert_eq!(s, CrawlState::Done);
}

#[test]
fn crawl_gives_up_first_page_after_five_attempts() {
    let (mut state, _) = crawl_start();
    let mut fetches = 1;
    loop {
        let (s, step) = crawl_step(state, FetchOutcome::Failed);
        assert!(!step.save_page);
        state = s;
        match step.next {
            CrawlAction::Fetch { page, pause_seconds } => {
                assert_eq!(page, 1);
                assert_eq!(pause_seconds, 2);
                fetches += 1;
            }
            CrawlAction::Stop => break,
        }
    }
    assert_eq!(fetches, 5);
    assert_eq!(state, CrawlState::Done);
}

#[test]
fn crawl_skips_a_page_after_ten_attempts() {
    let (state, _) = crawl_start();
    let (mut state, _) = crawl_step(state, FetchOutcome::Fetched { page_count: 3 });
    let mut attempts_page_2 = 1;
    loop {
        let (s, step) = crawl_step(state, FetchOutcome::Failed);
        state = s;
        match step.next {
            CrawlAction::Fetch { page: 2, .. } => attempts_page_2 += 1,
            CrawlAction::Fetch { page: 3, .. } => break,
            other => panic!("unexpected {:?}", other),
        }
    }
    assert_eq!(attempts_page_2, 10);
    assert_eq!(state, CrawlState::Page { page: 3, last_page: 3, base_tries: 1, tries: 1 });
}

#[test]
fn single_page_leaderboard_stops_after_first_page() {
    let (state, _) = crawl_start();
    let (s, step) = crawl_step(state, FetchOutcome::Fetched { page_count: 1 });
    assert_eq!(s, CrawlState::Done);
    assert_eq!(step.next, CrawlAction::Stop);
    assert!(step.save_page);
}

#[test]
fn crawled_request_is_global_players() {
    let r = leaderboard_request(4, TeamSize::T4v4);
    assert_eq!(r.page, 4);
    assert_eq!(r.region, Region::Global);
    assert_eq!(r.team_size, Some(TeamSize::T4v4));
    assert_eq!(r.versus, Versus::Players);
    assert_eq!(r.match_type, MatchType::Unranked);
    assert_eq!(r.count, 100);
}

#[test]
fn only_status_200_is_accepted() {
    assert_eq!(check_status(200), Ok(()));
    assert_eq!(check_status(404), Err(404));
    assert_eq!(check_status(500), Err(500));
}

#[test]
fn parsed_page_keeps_its_request() {
    let lb = Leaderboard { request: None, count: 7, items: vec![entry(1, "a")] };
    let req = leaderboard_request(2, TeamSize::T2v2);
    let lb = attach_request(lb, req);
    assert_eq!(lb.request.unwrap().page, 2);
    assert_eq!(lb.count, 7);
    assert_eq!(lb.items.len(), 1);
}

#[test]
fn new_player_gets_player_and_snapshot() {
    let lb = page(Some(TeamSize::T1v1), vec![entry(11, "alice")]);
    let (s, a) = save_start(&lb);
    assert_eq!(a, SaveAction::SelectPlayer { rl_user_id: 11 });
    let (s, a) = save_step(&lb, s, SaveEvent::PlayerMissing);
    assert_eq!(
        a,
        SaveAction::InsertPlayer {
            rl_user_id: 11,
            username: "alice".to_string(),
            region: "eu".to_string(),
            avatar_url: Some("https://avatars/11".to_string()),
        }
    );
    let (s, a) = save_step(&lb, s, SaveEvent::PlayerInserted(77));
    assert_eq!(a, SaveAction::SelectLatestMatch { player_id: 77 });
    let (s, a) = save_step(&lb, s, SaveEvent::NoLatestMatch);
    assert_eq!(
        a,
        SaveAction::InsertMatch {
            row: NewMatchRow {
                elo: 1500,
                elo_rating: 1490,
                rank: 3,
                wins: 20,
                losses: 5,
                win_streak: 2,
                match_type: MatchType::Unranked,
                team_size: TeamSize::T1v1,
                versus: Versus::Players,
            }
        }
    );
    let (s, a) = save_step(&lb, s, SaveEvent::MatchInserted(900));
    assert_eq!(a, SaveAction::LinkMatch { player_id: 77, match_id: 900 });
    let (s, a) = save_step(&lb, s, SaveEvent::Linked { ok: true });
    assert_eq!(a, SaveAction::Finish);
    assert_eq!(s, SaveState::Finished);
}

#[test]
fn unchanged_standing_is_not_stored_again() {
    let lb = page(None, vec![entry(11, "alice"), entry(12, "bob")]);
    let (s, _) = save_start(&lb);
    let (s, a) = save_step(&lb, s, SaveEvent::PlayerFound(5));
    assert_eq!(
        a,
        SaveAction::UpdatePlayer {
            player_id: 5,
            username: "alice".to_string(),
            avatar_url: Some("https://avatars/11".to_string()),
            region: "eu".to_string(),
        }
    );
    let (s, a) = save_step(&lb, s, SaveEvent::PlayerUpdated { ok: true });
    assert_eq!(a, SaveAction::SelectLatestMatch { player_id: 5 });
    let same = StoredMatch {
        match_type: MatchType::Unranked,
        team_size: TeamSize::Custom,
        versus: Versus::Players,
        rank: 3,
        elo: 1500,
        wins: 20,
        losses: 5,
        win_streak: 2,
    };
    let (s, a) = save_step(&lb, s, SaveEvent::LatestMatchFound(same));
    assert_eq!(a, SaveAction::SelectPlayer { rl_user_id: 12 });
    let (s, a) = save_step(&lb, s, SaveEvent::PlayerFound(6));
    let (s, _) = save_step(&lb, s, SaveEvent::PlayerUpdated { ok: false });
    let changed = StoredMatch { wins: 19, ..same };
    let (s, a2) = save_step(&lb, s, SaveEvent::LatestMatchFound(changed));
    match a2 {
        SaveAction::InsertMatch { row } => {
            assert_eq!(row.wins, 20);
            assert_eq!(row.team_size, TeamSize::Custom);
        }
        other => panic!("expected an insert, got {:?}", other),
    }
    let (_, a3) = save_step(&lb, s, SaveEvent::MatchInsertFailed);
    assert_eq!(a3, SaveAction::Finish);
    let _ = a;
}

#[test]
fn failed_player_insert_uses_nil_id_and_failed_lookup_skips() {
    let lb = page(Some(TeamSize::T2v2), vec![entry(1, "a"), entry(2, "b")]);
    let (s, _) = save_start(&lb);
    let (s, a) = save_step(&lb, s, SaveEvent::PlayerLookupFailed);
    assert_eq!(a, SaveAction::SelectPlayer { rl_user_id: 2 });
    let (s, _) = save_step(&lb, s, SaveEvent::PlayerMissing);
    let (_, a) = save_step(&lb, s, SaveEvent::PlayerInsertFailed);
    assert_eq!(a, SaveAction::SelectLatestMatch { player_id: 0 });
}

#[test]
fn page_without_request_is_not_stored() {
    let lb = Leaderboard { request: None, count: 1, items: vec![entry(1, "a")] };
    let (s, a) = save_start(&lb);
    assert_eq!(s, SaveState::Finished);
    assert_eq!(a, SaveAction::Finish);
}

#[test]
fn db_actor_accepts_users() {
    CrawlerActor::new();
    let mut actor = DBActor {};
    assert_eq!(actor.handle(GetUser(entry(3, "c"))), Ok(()));
}

#[test]
fn storing_the_same_page_twice_adds_no_snapshot() {
    let lb = page(Some(TeamSize::T3v3), vec![entry(21, "carol")]);
    let (s, _) = save_start(&lb);
    let (s, _) = save_step(&lb, s, SaveEvent::PlayerFound(8));
    let (s, _) = save_step(&lb, s, SaveEvent::PlayerUpdated { ok: true });
    let (_, a) = save_step(&lb, s, SaveEvent::NoLatestMatch);
    let row = match a {
        SaveAction::InsertMatch { row } => row,
        other => panic!("expected an insert, got {:?}", other),
    };
    let stored = StoredMatch {
        match_type: row.match_type,
        team_size: row.team_size,
        versus: row.versus,
        rank: row.rank,
        elo: row.elo,
        wins: row.wins,
        losses: row.losses,
        win_streak: row.win_streak,
    };
    let (s, _) = save_start(&lb);
    let (s, _) = save_step(&lb, s, SaveEvent::PlayerFound(8));
    let (s, _) = save_step(&lb, s, SaveEvent::PlayerUpdated { ok: true });
    let (s, a) = save_step(&lb, s, SaveEvent::LatestMatchFound(stored));
    assert_eq!(a, SaveAction::Finish);
    assert_eq!(s, SaveState::Finished);
}
