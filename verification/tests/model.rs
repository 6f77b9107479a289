use age4::calendar::{CalendarDate, Timestamp};
use age4::request::{AgeOfEmpiresLeaderboardRequest, MatchType, Region, TeamSize, Versus};
use age4::stored::{MatchHistory, MatchHistorySerializable};
use age4::text::{push_int, str_equal};
use age4::crawler_request::{AgeOfEmpiresLeaderboardRequest as CrawlerRequest, TeamSize as CrawlerTeamSize};

fn sample_history() -> MatchHistory {
    MatchHistory {
        id: 0x0123_4567_89ab_cdef_0011_2233_4455_6677,
        time: Timestamp {
            date: CalendarDate { year: 2022, month: 3, day: 7 },
            hour: 13,
            minute: 5,
            second: 9,
            nanosecond: 0,
        },
        elo: 1200,
        elo_rating: 1180,
        rank: 42,
        wins: 10,
        losses: 4,
        win_streak: 3,
        match_type: MatchType::Unranked,
        team_size: TeamSize::T2v2,
        versus: Versus::Players,
    }
}

#[test]
fn request_new_sets_defaults() {
    let r = AgeOfEmpiresLeaderboardRequest::new(7, Region::Europa, Some(TeamSize::T3v3), Versus::AI);
    assert_eq!(r.count, 100);
    assert_eq!(r.match_type, MatchType::Unranked);
    assert_eq!(r.page, 7);
    assert_eq!(r.region, Region::Europa);
    assert_eq!(r.search_player, "");
    assert_eq!(r.team_size, Some(TeamSize::T3v3));
    assert_eq!(r.versus, Versus::AI);
}

#[test]
fn crawler_request_new_sets_defaults() {
    let r = CrawlerRequest::new(2, Region::Global, Some(CrawlerTeamSize::T1v1), Versus::Players);
    assert_eq!(r.count, 100);
    assert_eq!(r.match_type, MatchType::Unranked);
    assert_eq!(r.page, 2);
    assert_eq!(r.search_player, "");
    assert_eq!(r.team_size, Some(CrawlerTeamSize::T1v1));
}

#[test]
fn wire_names_round_trip() {
    for m in [MatchType::Unranked, MatchType::Ranked, MatchType::Custom] {
        assert_eq!(MatchType::from_wire_name(m.wire_name()), Some(m));
    }
    for t in [TeamSize::T1v1, TeamSize::T2v2, TeamSize::T3v3, TeamSize::T4v4, TeamSize::Custom] {
        assert_eq!(TeamSize::from_wire_name(t.wire_name()), Some(t));
    }
    for v in [Versus::AI, Versus::Players] {
        assert_eq!(Versus::from_wire_name(v.wire_name()), Some(v));
    }
}

#[test]
fn wire_names_are_the_stored_ones() {
    assert_eq!(MatchType::Ranked.wire_name(), "ranked");
    assert_eq!(TeamSize::T4v4.wire_name(), "4v4");
    assert_eq!(TeamSize::Custom.wire_name(), "custom");
    assert_eq!(Versus::AI.wire_name(), "ai");
    assert_eq!(MatchType::from_wire_name("Ranked"), None);
    assert_eq!(TeamSize::from_wire_name("5v5"), None);
    assert_eq!(Versus::from_wire_name(""), None);
}

#[test]
fn region_codes_round_trip() {
    assert_eq!(Region::Global.code(), 7);
    assert_eq!(Region::Europa.code(), 0);
    for c in 0u8..8 {
        assert_eq!(Region::from_code(c).unwrap().code(), c);
    }
    assert_eq!(Region::from_code(8), None);
}

#[test]
fn str_equal_compares_characters() {
    assert!(str_equal("abc", "abc"));
    assert!(!str_equal("abc", "abd"));
    assert!(!str_equal("abc", "ab"));
    assert!(str_equal("", ""));
}

#[test]
fn decimal_numerals() {
    let mut s = String::from("x");
    push_int(&mut s, -9_223_372_036_854_775_808);
    assert_eq!(s, "x-9223372036854775808");
    let mut s = String::new();
    push_int(&mut s, 0);
    assert_eq!(s, "0");
    let mut s = String::new();
    push_int(&mut s, 1234567890);
    assert_eq!(s, "1234567890");
}

#[test]
fn dates_are_written_as_iso() {
    assert_eq!(CalendarDate { year: 2021, month: 3, day: 4 }.to_iso_string(), "2021-03-04");
    assert_eq!(CalendarDate { year: 12345, month: 12, day: 31 }.to_iso_string(), "+12345-12-31");
    assert_eq!(CalendarDate { year: -44, month: 3, day: 15 }.to_iso_string(), "-44-03-15");
    assert_eq!(CalendarDate { year: 5, month: 1, day: 1 }.to_iso_string(), "5-01-01");
}

#[test]
fn dates_are_read_as_iso() {
    assert_eq!(
        CalendarDate::parse_iso("2020-02-29"),
        Ok(CalendarDate { year: 2020, month: 2, day: 29 })
    );
    assert!(CalendarDate::parse_iso("2019-02-29").is_err());
    assert!(CalendarDate::parse_iso("yesterday").is_err());
}

#[test]
fn match_history_serializes_with_date_only() {
    let m = sample_history();
    let s = MatchHistorySerializable::from(&m);
    assert_eq!(s.id, m.id);
    assert_eq!(s.time, "2022-03-07");
    assert_eq!(s.elo, 1200);
    assert_eq!(s.elo_rating, 1180);
    assert_eq!(s.rank, 42);
    assert_eq!(s.wins, 10);
    assert_eq!(s.losses, 4);
    assert_eq!(s.win_streak, 3);
    assert_eq!(s.match_type, MatchType::Unranked);
    assert_eq!(s.team_size, TeamSize::T2v2);
    assert_eq!(s.versus, Versus::Players);
}

#[test]
fn grpc_entry_of_match_history() {
    let m = sample_history();
    let e = m.from_match_history();
    assert_eq!(e.id, "01234567-89ab-cdef-0011-223344556677");
    assert_eq!(e.time, "2022-03-07");
    assert_eq!(e.match_type, "unranked");
    assert_eq!(e.team_size, "2v2");
    assert_eq!(e.versus, "players");
    assert_eq!(e.elo, 1200);
    assert_eq!(e.rank, 42);
}

#[test]
fn written_dates_read_back() {
    for d in [
        CalendarDate { year: 2021, month: 3, day: 4 },
        CalendarDate { year: 12345, month: 12, day: 31 },
        CalendarDate { year: -44, month: 3, day: 15 },
        CalendarDate { year: 5, month: 1, day: 1 },
        CalendarDate { year: 0, month: 2, day: 29 },
    ] {
        assert_eq!(CalendarDate::parse_iso(&d.to_iso_string()), Ok(d));
    }
}
