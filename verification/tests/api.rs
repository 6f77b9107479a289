use age4::calendar::{CalendarDate, Timestamp};
use age4::grpc::{
    date_reply, history_reply, plan_rank_page, rank_page_reply as grpc_rank_page_reply, route,
    service_name, CachedRankPageRequest as GrpcRankPageRequest, GrpcCode, GrpcRoute, MVTConverter,
    RankPagePlanError, WireField,
};
use age4::request::{MatchType, TeamSize, Versus};
use age4::rest::{
    cache_key, cached_dates_reply, merge_rank_pages, plan_cached_rank_page, player_history_reply,
    rank_page_reply, search_pattern, search_players_reply, split_cache_lookups, ApiError,
    CacheLookup, CachedRankPageRequest, RankPageAtTime, SearchPlayer, CACHE_TTL_SECONDS,
};
use age4::stored::MatchHistory;

fn standing(id: i64, rank: i32) -> RankPageAtTime {
    RankPageAtTime { rank, rl_user_id: id, elo: 1000 + rank, elo_rating: 900 + rank }
}

fn history(id: u128, day: u8) -> MatchHistory {
    MatchHistory {
        id,
        time: Timestamp {
            date: CalendarDate { year: 2023, month: 11, day },
            hour: 0,
            minute: 0,
            second: 0,
            nanosecond: 0,
        },
        elo: 1,
        elo_rating: 2,
        rank: 3,
        wins: 4,
        losses: 5,
        win_streak: 6,
        match_type: MatchType::Ranked,
        team_size: TeamSize::T3v3,
        versus: Versus::AI,
    }
}

fn rest_request(n: usize, time: Option<&str>) -> CachedRankPageRequest {
    CachedRankPageRequest {
        player_ids: (0..n as i64).collect(),
        match_type: MatchType::Unranked,
        versus: Versus::Players,
        team_size: TeamSize::T1v1,
        time: time.map(|t| t.to_string()),
    }
}

#[test]
fn search_pattern_wraps_name() {
    assert_eq!(search_pattern("Beast"), "%Beast%");
    assert_eq!(search_pattern(""), "%%");
}

#[test]
fn search_reply_counts_players() {
    let players = vec![
        SearchPlayer { username: "a".to_string(), rl_user_id: 1 },
        SearchPlayer { username: "b".to_string(), rl_user_id: 2 },
    ];
    let r = search_players_reply(players);
    assert_eq!(r.count, 2);
    assert_eq!(r.players[1].rl_user_id, 2);
}

#[test]
fn more_than_hundred_players_are_refused() {
    let r = plan_cached_rank_page(rest_request(101, None));
    assert_eq!(r.unwrap_err(), ApiError::TooManyPlayerIds);
    let r = plan_cached_rank_page(rest_request(101, Some("2022-01-01")));
    assert_eq!(r.unwrap_err(), ApiError::TooManyPlayerIds);
    assert_eq!(ApiError::TooManyPlayerIds.status_code(), 403);
    assert!(plan_cached_rank_page(rest_request(100, None)).is_ok());
}

#[test]
fn rank_page_plan_at_date_and_latest() {
    let q = plan_cached_rank_page(rest_request(3, Some("2022-05-09"))).unwrap();
    assert_eq!(q.date, Some(CalendarDate { year: 2022, month: 5, day: 9 }));
    assert_eq!(q.player_ids, vec![0, 1, 2]);
    let q = plan_cached_rank_page(rest_request(2, None)).unwrap();
    assert_eq!(q.date, None);
    assert_eq!(q.team_size, TeamSize::T1v1);
    match plan_cached_rank_page(rest_request(2, Some("09.05.2022"))) {
        Err(e @ ApiError::UnprocessableDate(_)) => assert_eq!(e.status_code(), 422),
        other => panic!("expected a date refusal, got {:?}", other.is_ok()),
    }
}

#[test]
fn api_error_bodies() {
    assert_eq!(ApiError::IdNotFound.status_code(), 400);
    assert_eq!(
        ApiError::IdNotFound.error_response(),
        "Error Database: Id is not found in database"
    );
    assert!(ApiError::TooManyPlayerIds
        .error_response()
        .starts_with("Error too many player_ids: Slow down a bit"));
    assert_eq!(ApiError::Internal("db down".to_string()).status_code(), 500);
    assert_eq!(ApiError::Internal("db down".to_string()).error_response(), "db down");
}

#[test]
fn history_replies_count_entries() {
    let h = Ok(vec![history(1, 1), history(2, 2)]);
    let r = player_history_reply(&h).unwrap();
    assert_eq!(r.count, 2);
    assert_eq!(r.matches[1].time, "2023-11-02");
    let r = player_history_reply(&Err("x".to_string()));
    assert_eq!(r.unwrap_err(), ApiError::IdNotFound);
    let g = history_reply(&h).unwrap();
    assert_eq!(g.count, 2);
    assert_eq!(g.matches[0].id, "00000000-0000-0000-0000-000000000001");
    assert_eq!(g.matches[0].match_type, "ranked");
    let e = history_reply(&Err("x".to_string())).unwrap_err();
    assert_eq!(e.code, GrpcCode::InvalidArgument);
    assert_eq!(e.message, "Id not found");
}

#[test]
fn dates_replies() {
    let d = Ok(vec![CalendarDate { year: 2021, month: 12, day: 24 }]);
    assert_eq!(cached_dates_reply(&d).unwrap().dates, vec!["2021-12-24".to_string()]);
    assert_eq!(
        cached_dates_reply(&Err("boom".to_string())).unwrap_err(),
        ApiError::Internal("boom".to_string())
    );
    assert_eq!(date_reply(&d).unwrap().dates, vec!["2021-12-24".to_string()]);
    let e = date_reply(&Err("boom".to_string())).unwrap_err();
    assert_eq!(e.code, GrpcCode::Unknown);
    assert_eq!(e.code.number(), 2);
    assert_eq!(e.message, "Error Code: 452131");
}

#[test]
fn rank_page_replies_keep_order() {
    let rows = Ok(vec![standing(5, 1), standing(6, 2)]);
    let r = rank_page_reply(&rows).unwrap();
    assert_eq!(r.last_leaderboard.len(), 2);
    assert_eq!(r.last_leaderboard[1].rl_user_id, 6);
    assert_eq!(r.last_leaderboard[1].elo, 1002);
    let g = grpc_rank_page_reply(&Err("nope".to_string())).unwrap_err();
    assert_eq!(g.code, GrpcCode::InvalidArgument);
    assert_eq!(g.message, "nope");
}

#[test]
fn cache_keys_and_split() {
    assert_eq!(cache_key(42), "cached-leaderboard-42");
    assert_eq!(cache_key(-7), "cached-leaderboard--7");
    assert_eq!(CACHE_TTL_SECONDS, 600);
    let ids = vec![1, 2, 3, 4];
    let lookups = vec![
        CacheLookup::Cached(standing(1, 10)),
        CacheLookup::Missing,
        CacheLookup::Unusable,
        CacheLookup::Missing,
    ];
    let split = split_cache_lookups(&ids, &lookups);
    assert_eq!(split.cached, vec![standing(1, 10)]);
    assert_eq!(split.to_query, vec![2, 4]);
    assert!(split.needs_database());
    let page = merge_rank_pages(split.cached, vec![standing(2, 20), standing(4, 40)]);
    assert_eq!(page, vec![standing(1, 10), standing(2, 20), standing(4, 40)]);
}

#[test]
fn converter_reads_wire_names() {
    let c = MVTConverter::convert("ranked", "ai", "4v4").unwrap();
    assert_eq!(c.match_type, MatchType::Ranked);
    assert_eq!(c.versus, Versus::AI);
    assert_eq!(c.team_size, TeamSize::T4v4);
    let e = MVTConverter::convert("ranked", "bots", "9v9").unwrap_err();
    assert_eq!(e.field, WireField::Versus);
    assert_eq!(e.given, "bots");
    let e = MVTConverter::convert("ranked", "ai", "9v9").unwrap_err();
    assert_eq!(e.field, WireField::TeamSize);
}

#[test]
fn grpc_rank_page_plan() {
    let req = GrpcRankPageRequest {
        player_ids: vec![9],
        match_type: "custom".to_string(),
        versus: "players".to_string(),
        team_size: "custom".to_string(),
        time: Some("2020-01-31".to_string()),
    };
    let q = plan_rank_page(req.clone()).unwrap();
    assert_eq!(q.date, Some(CalendarDate { year: 2020, month: 1, day: 31 }));
    assert_eq!(q.team_size, TeamSize::Custom);
    let bad = GrpcRankPageRequest { time: Some("2020-13-01".to_string()), ..req.clone() };
    assert!(matches!(plan_rank_page(bad), Err(RankPagePlanError::Date(_))));
    let bad = GrpcRankPageRequest { match_type: "elite".to_string(), ..req };
    assert!(matches!(plan_rank_page(bad), Err(RankPagePlanError::Name(_))));
}

#[test]
fn routing_by_path() {
    assert_eq!(route("/player.PlayerPage/GetPlayerHistoryMatches"), GrpcRoute::GetPlayerHistoryMatches);
    assert_eq!(route("/player.PlayerPage/Other"), GrpcRoute::Unimplemented);
    assert_eq!(GrpcCode::Unimplemented.number(), 12);
    assert_eq!(service_name(), "player.PlayerPage");
}

#[test]
fn rank_page_refusals_are_invalid_argument() {
    let req = GrpcRankPageRequest {
        player_ids: vec![1],
        match_type: "Ranked".to_string(),
        versus: "Players".to_string(),
        team_size: "T1v1".to_string(),
        time: None,
    };
    match plan_rank_page(req.clone()) {
        Err(e @ RankPagePlanError::Name(_)) => {
            if let RankPagePlanError::Name(n) = &e {
                assert_eq!(n.field, WireField::MatchType);
                assert_eq!(n.given, "Ranked");
            }
            let s = e.refusal("bad name".to_string());
            assert_eq!(s.code, GrpcCode::InvalidArgument);
            assert_eq!(s.message, "bad name");
        }
        _ => panic!("expected a name refusal"),
    }
    let dated = GrpcRankPageRequest {
        match_type: "ranked".to_string(),
        versus: "players".to_string(),
        team_size: "1v1".to_string(),
        time: Some("tomorrow".to_string()),
        ..req
    };
    match plan_rank_page(dated) {
        Err(e @ RankPagePlanError::Date(_)) => {
            let text = match &e {
                RankPagePlanError::Date(t) => t.clone(),
                _ => unreachable!(),
            };
            let s = e.refusal(String::new());
            assert_eq!(s.code, GrpcCode::InvalidArgument);
            assert_eq!(s.message, text);
        }
        _ => panic!("expected a date refusal"),
    }
    let e = MVTConverter::convert("x", "y", "z").unwrap_err();
    assert_eq!(e.field, WireField::MatchType);
    assert_eq!(e.given, "x");
    assert_eq!(e.refusal("m".to_string()).code, GrpcCode::InvalidArgument);
}

#[test]
fn second_rank_page_is_the_first_reordered() {
    let ids = vec![1, 2, 3];
    let first = split_cache_lookups(&ids, &vec![CacheLookup::Missing; 3]);
    assert_eq!(first.to_query, vec![1, 2, 3]);
    let rows = vec![standing(2, 20), standing(1, 10)];
    let v1 = merge_rank_pages(first.cached, rows.clone());
    let second = split_cache_lookups(
        &ids,
        &vec![CacheLookup::Cached(rows[1]), CacheLookup::Cached(rows[0]), CacheLookup::Missing],
    );
    assert_eq!(second.to_query, vec![3]);
    let v2 = merge_rank_pages(second.cached, vec![]);
    assert_eq!(v2.len(), v1.len());
    assert!(v1.iter().all(|x| v2.contains(x)));
}
