//! The rules of the gRPC front end: the player page service, its request
//! routing, the wire names of the leaderboard it is asked about, and its
//! replies.

use vstd::prelude::*;
use vstd::string::*;
use crate::calendar::{iso_date_parse, CalendarDate};
use crate::identifier::{uuid_string, uuid_text};
use crate::request::{
    match_type_name, team_size_name, versus_name, MatchType, TeamSize, Versus,
};
use crate::rest::{
    rank_page_lines, shows, CachedRankPageContent, CachedRankPageReply, RankPageAtTime, RankPageQuery,
};
use crate::stored::MatchHistory;
use crate::text::str_equal;

verus! {

/// Which player a match history is asked for.
#[derive(Clone, Debug)]
pub struct RlUserId {
    pub rl_user_id: i64,
    pub time: String,
}

/// One snapshot, every field as the client reads it.
#[derive(Clone, Debug)]
pub struct MatchHistoryEntry {
    pub id: String,
    pub time: String,
    pub elo: i32,
    pub elo_rating: i32,
    pub rank: i32,
    pub wins: i32,
    pub losses: i32,
    pub win_streak: i32,
    pub match_type: String,
    pub team_size: String,
    pub versus: String,
}

/// A player's match history: the snapshots and how many there are.
#[derive(Clone, Debug)]
pub struct MatchHistoryReply {
    pub count: i32,
    pub matches: Vec<MatchHistoryEntry>,
}

/// The dates asked for one leaderboard, named by its wire names.
#[derive(Clone, Debug)]
pub struct GetCachedDatesRequest {
    pub match_type: String,
    pub versus: String,
    pub team_size: String,
}

/// The dates that have snapshots, as `YYYY-MM-DD`.
#[derive(Clone, Debug)]
pub struct DateReply {
    pub dates: Vec<String>,
}

/// A rank page asked for, the leaderboard named by its wire names.
#[derive(Clone, Debug)]
pub struct CachedRankPageRequest {
    pub player_ids: Vec<i64>,
    pub match_type: String,
    pub versus: String,
    pub team_size: String,
    pub time: Option<String>,
}

/// The status codes of gRPC that the service answers with.
#[derive(Clone, Copy, Debug, PartialEq, Eq, Structural)]
pub enum GrpcCode {
    Unknown,
    InvalidArgument,
    Unimplemented,
}

/// The number of a gRPC status code.
pub open spec fn grpc_code_number(c: GrpcCode) -> u8 {
    match c {
        GrpcCode::Unknown => 2,
        GrpcCode::InvalidArgument => 3,
        GrpcCode::Unimplemented => 12,
    }
}

/// The codes keep the numbers that gRPC gives them: `UNKNOWN` is 2,
/// `INVALID_ARGUMENT` 3 and `UNIMPLEMENTED` 12.
pub proof fn lemma_grpc_code_numbers()
    ensures
        grpc_code_number(GrpcCode::Unknown) == 2,
        grpc_code_number(GrpcCode::InvalidArgument) == 3,
        grpc_code_number(GrpcCode::Unimplemented) == 12,
{
}

impl GrpcCode {
    /// The number of the code.
    pub fn number(&self) -> (r: u8)
        ensures
            r == grpc_code_number(*self),
    {
        match self {
            GrpcCode::Unknown => 2,
            GrpcCode::InvalidArgument => 3,
            GrpcCode::Unimplemented => 12,
        }
    }
}

/// A refusal: a gRPC code with its message.
#[derive(Clone, Debug, PartialEq, Eq)]
pub struct GrpcStatus {
    pub code: GrpcCode,
    pub message: String,
}

/// The entry of a snapshot: the identifier in hyphenated form, the date as
/// `YYYY-MM-DD`, the leaderboard by its wire names, the numbers unchanged.
pub open spec fn entry_of(e: MatchHistoryEntry, m: MatchHistory) -> bool {
    &&& e.id@ == uuid_text(m.id)
    &&& e.time@ == m.time.date.iso_text()
    &&& e.elo == m.elo
    &&& e.elo_rating == m.elo_rating
    &&& e.rank == m.rank
    &&& e.wins == m.wins
    &&& e.losses == m.losses
    &&& e.win_streak == m.win_streak
    &&& e.match_type@ == match_type_name(m.match_type)
    &&& e.team_size@ == team_size_name(m.team_size)
    &&& e.versus@ == versus_name(m.versus)
}

/// An entry keeps each number of its snapshot in the field of the same name:
/// the wins stay wins and the losses stay losses, and likewise the rating,
/// the points, the rank and the streak.
pub proof fn lemma_entry_keeps_numbers(e: MatchHistoryEntry, m: MatchHistory)
    requires
        entry_of(e, m),
    ensures
        e.wins == m.wins,
        e.losses == m.losses,
        e.elo == m.elo,
        e.elo_rating == m.elo_rating,
        e.rank == m.rank,
        e.win_streak == m.win_streak,
{
}

impl MatchHistory {
    /// The entry that the gRPC service sends for the snapshot.
    pub fn from_match_history(&self) -> (r: MatchHistoryEntry)
        requires
            self.wf(),
        ensures
            entry_of(r, *self),
            r.elo == self.elo,
            r.elo_rating == self.elo_rating,
            r.rank == self.rank,
            r.wins == self.wins,
            r.losses == self.losses,
            r.win_streak == self.win_streak,
            r.id@ == uuid_text(self.id),
            r.time@ == self.time.date.iso_text(),
            r.match_type@ == match_type_name(self.match_type),
            r.team_size@ == team_size_name(self.team_size),
            r.versus@ == versus_name(self.versus),
    {
        MatchHistoryEntry {
            id: uuid_string(self.id),
            match_type: String::from_str(self.match_type.wire_name()),
            team_size: String::from_str(self.team_size.wire_name()),
            elo: self.elo,
            time: self.time.date.to_iso_string(),
            rank: self.rank,
            elo_rating: self.elo_rating,
            losses: self.losses,
            wins: self.wins,
            win_streak: self.win_streak,
            versus: String::from_str(self.versus.wire_name()),
        }
    }
}

/// The message of the refusal of an unknown player.
pub open spec fn id_not_found_text() -> Seq<char> {
    "Id not found"@
}

/// A player's match history, or `INVALID_ARGUMENT` when it could not be read.
pub fn history_reply(history: &Result<Vec<MatchHistory>, String>) -> (r: Result<
    MatchHistoryReply,
    GrpcStatus,
>)
    requires
        history matches Ok(h) ==> forall|i: int| 0 <= i < h@.len() ==> (#[trigger] h@[i]).wf(),
    ensures
        match history {
            Ok(h) => r matches Ok(reply) && reply.count == h@.len() as i32 && reply.matches@.len()
                == h@.len() && (forall|i: int|
                0 <= i < h@.len() ==> entry_of(#[trigger] reply.matches@[i], h@[i])) && (forall|
                i: int,
            |
                0 <= i < h@.len() ==> #[trigger] reply.matches@[i].wins == h@[i].wins
                    && reply.matches@[i].losses == h@[i].losses && reply.matches@[i].elo
                    == h@[i].elo && reply.matches@[i].elo_rating == h@[i].elo_rating
                    && reply.matches@[i].rank == h@[i].rank && reply.matches@[i].win_streak
                    == h@[i].win_streak),
            Err(_) => r matches Err(s) && s.code == GrpcCode::InvalidArgument && s.message@
                == id_not_found_text(),
        },
{
    match history {
        Ok(h) => {
            let mut matches: Vec<MatchHistoryEntry> = Vec::new();
            let n: usize = h.len();
            let mut i: usize = 0;
            while i < n
                invariant
                    n == h@.len(),
                    i <= n,
                    matches@.len() == i,
                    forall|j: int| 0 <= j < h@.len() ==> (#[trigger] h@[j]).wf(),
                    forall|j: int| 0 <= j < i ==> entry_of(#[trigger] matches@[j], h@[j]),
                    forall|j: int|
                        0 <= j < i ==> #[trigger] matches@[j].wins == h@[j].wins
                            && matches@[j].losses == h@[j].losses && matches@[j].elo == h@[j].elo
                            && matches@[j].elo_rating == h@[j].elo_rating && matches@[j].rank
                            == h@[j].rank && matches@[j].win_streak == h@[j].win_streak,
                decreases n - i,
            {
                matches.push(h[i].from_match_history());
                i += 1;
            }
            Ok(MatchHistoryReply { count: n as i32, matches })
        },
        Err(_) => Err(
            GrpcStatus { code: GrpcCode::InvalidArgument, message: String::from_str("Id not found") },
        ),
    }
}

/// Which of the three names could not be read.
#[derive(Clone, Copy, Debug, PartialEq, Eq, Structural)]
pub enum WireField {
    MatchType,
    Versus,
    TeamSize,
}

/// A name that is no wire name of its field.
#[derive(Clone, Debug, PartialEq, Eq)]
pub struct WireNameError {
    pub field: WireField,
    pub given: String,
}

/// `e` reports the first of the three names that is no wire name of its
/// field, in the order match type, opponents, team size, with the text given.
pub open spec fn is_first_bad_name(
    match_type: Seq<char>,
    versus: Seq<char>,
    team_size: Seq<char>,
    e: WireNameError,
) -> bool {
    ||| e.field == WireField::MatchType && e.given@ == match_type && (forall|m: MatchType|
        match_type != #[trigger] match_type_name(m))
    ||| e.field == WireField::Versus && e.given@ == versus && (exists|m: MatchType|
        match_type == #[trigger] match_type_name(m)) && (forall|v: Versus|
        versus != #[trigger] versus_name(v))
    ||| e.field == WireField::TeamSize && e.given@ == team_size && (exists|m: MatchType|
        match_type == #[trigger] match_type_name(m)) && (exists|v: Versus|
        versus == #[trigger] versus_name(v)) && (forall|t: TeamSize|
        team_size != #[trigger] team_size_name(t))
}

impl WireNameError {
    /// The refusal of a request whose leaderboard names cannot be read:
    /// `INVALID_ARGUMENT`, with the message of the failed read of `given`.
    pub fn refusal(&self, message: String) -> (r: GrpcStatus)
        ensures
            r.code == GrpcCode::InvalidArgument,
            r.message == message,
    {
        GrpcStatus { code: GrpcCode::InvalidArgument, message }
    }
}

/// A leaderboard named by its wire names, read.
#[derive(Clone, Copy, Debug, PartialEq, Eq, Structural)]
pub struct MVTConverter {
    pub match_type: MatchType,
    pub versus: Versus,
    pub team_size: TeamSize,
}

impl MVTConverter {
    /// Reads the match type, the opponents and the team size from their wire
    /// names, in this order; the first name that is none is the error.
    pub fn convert(match_type: &str, versus: &str, team_size: &str) -> (r: Result<
        MVTConverter,
        WireNameError,
    >)
        ensures
            match r {
                Ok(c) => match_type@ == match_type_name(c.match_type) && versus@ == versus_name(
                    c.versus,
                ) && team_size@ == team_size_name(c.team_size),
                Err(e) => is_first_bad_name(match_type@, versus@, team_size@, e),
            },
    {
        let m = match MatchType::from_wire_name(match_type) {
            Some(m) => m,
            None => {
                return Err(
                    WireNameError { field: WireField::MatchType, given: String::from_str(match_type) },
                );
            },
        };
        let v = match Versus::from_wire_name(versus) {
            Some(v) => v,
            None => {
                return Err(WireNameError { field: WireField::Versus, given: String::from_str(versus) });
            },
        };
        let t = match TeamSize::from_wire_name(team_size) {
            Some(t) => t,
            None => {
                return Err(
                    WireNameError { field: WireField::TeamSize, given: String::from_str(team_size) },
                );
            },
        };
        Ok(MVTConverter { match_type: m, versus: v, team_size: t })
    }
}

/// The message of a failed read of the dates.
pub open spec fn dates_failure_text() -> Seq<char> {
    "Error Code: 452131"@
}

/// The dates as `YYYY-MM-DD`, or `UNKNOWN` when they could not be read.
pub fn date_reply(dates: &Result<Vec<CalendarDate>, String>) -> (r: Result<DateReply, GrpcStatus>)
    requires
        dates matches Ok(d) ==> forall|i: int| 0 <= i < d@.len() ==> (#[trigger] d@[i]).valid(),
    ensures
        match dates {
            Ok(d) => r matches Ok(reply) && reply.dates@.len() == d@.len() && forall|i: int|
                0 <= i < d@.len() ==> (#[trigger] reply.dates@[i])@ == d@[i].iso_text(),
            Err(_) => r matches Err(s) && s.code == GrpcCode::Unknown && s.message@
                == dates_failure_text(),
        },
{
    match dates {
        Ok(d) => Ok(DateReply { dates: crate::rest::format_dates(d) }),
        Err(_) => Err(
            GrpcStatus { code: GrpcCode::Unknown, message: String::from_str("Error Code: 452131") },
        ),
    }
}

/// Why a rank page request is refused.
#[derive(Clone, Debug, PartialEq, Eq)]
pub enum RankPagePlanError {
    /// A leaderboard name is no wire name.
    Name(WireNameError),
    /// The date is not `YYYY-MM-DD`; the text is the parser's message.
    Date(String),
}

impl RankPagePlanError {
    /// The refusal of a rank page request: `INVALID_ARGUMENT`, with the
    /// message of the failed read of the name (`name_message`) or the
    /// parser's message for the date.
    pub fn refusal(&self, name_message: String) -> (r: GrpcStatus)
        ensures
            r.code == GrpcCode::InvalidArgument,
            match self {
                RankPagePlanError::Name(_) => r.message == name_message,
                RankPagePlanError::Date(m) => r.message@ == m@,
            },
    {
        match self {
            RankPagePlanError::Name(_) => GrpcStatus { code: GrpcCode::InvalidArgument, message: name_message },
            RankPagePlanError::Date(m) => GrpcStatus { code: GrpcCode::InvalidArgument, message: m.clone() },
        }
    }
}

/// Which query a rank page request asks for: the leaderboard names must be
/// wire names; with a date, the date must read as `YYYY-MM-DD` and the
/// standings at that date are asked for, else the latest standings.
pub fn plan_rank_page(request: CachedRankPageRequest) -> (r: Result<RankPageQuery, RankPagePlanError>)
    ensures
        match r {
            Ok(q) => {
                &&& q.player_ids@ == request.player_ids@
                &&& request.match_type@ == match_type_name(q.match_type)
                &&& request.versus@ == versus_name(q.versus)
                &&& request.team_size@ == team_size_name(q.team_size)
                &&& match request.time {
                    None => q.date is None,
                    Some(t) => q.date matches Some(d) && iso_date_parse(t@) == Ok::<
                        (int, int, int),
                        Seq<char>,
                    >((d.year as int, d.month as int, d.day as int)),
                }
            },
            Err(RankPagePlanError::Name(e)) => is_first_bad_name(
                request.match_type@,
                request.versus@,
                request.team_size@,
                e,
            ),
            Err(RankPagePlanError::Date(msg)) => {
                &&& exists|m: MatchType| request.match_type@ == #[trigger] match_type_name(m)
                &&& exists|v: Versus| request.versus@ == #[trigger] versus_name(v)
                &&& exists|t: TeamSize| request.team_size@ == #[trigger] team_size_name(t)
                &&& request.time matches Some(t) && iso_date_parse(t@) == Err::<
                    (int, int, int),
                    Seq<char>,
                >(msg@)
            },
        },
{
    let c = match MVTConverter::convert(
        request.match_type.as_str(),
        request.versus.as_str(),
        request.team_size.as_str(),
    ) {
        Ok(c) => c,
        Err(e) => {
            return Err(RankPagePlanError::Name(e));
        },
    };
    let date = match &request.time {
        Some(t) => match CalendarDate::parse_iso(t.as_str()) {
            Ok(d) => Some(d),
            Err(e) => {
                assert(request.match_type@ == match_type_name(c.match_type));
                assert(request.versus@ == versus_name(c.versus));
                assert(request.team_size@ == team_size_name(c.team_size));
                return Err(RankPagePlanError::Date(e));
            },
        },
        None => None,
    };
    Ok(
        RankPageQuery {
            player_ids: request.player_ids,
            date,
            match_type: c.match_type,
            team_size: c.team_size,
            versus: c.versus,
        },
    )
}

/// The rank page of the standings found, or `INVALID_ARGUMENT` with the
/// database's message.
pub fn rank_page_reply(rows: &Result<Vec<RankPageAtTime>, String>) -> (r: Result<
    CachedRankPageReply,
    GrpcStatus,
>)
    ensures
        match rows {
            Ok(p) => r matches Ok(reply) && reply.last_leaderboard@.len() == p@.len() && (forall|
                i: int,
            | 0 <= i < p@.len() ==> shows(#[trigger] reply.last_leaderboard@[i], p@[i])) && (
            forall|i: int|
                0 <= i < p@.len() ==> #[trigger] reply.last_leaderboard@[i] == (
                CachedRankPageContent {
                    rl_user_id: p@[i].rl_user_id,
                    rank: p@[i].rank,
                    elo: p@[i].elo,
                    elo_rating: p@[i].elo_rating,
                })),
            Err(m) => r matches Err(s) && s.code == GrpcCode::InvalidArgument && s.message@ == m@,
        },
{
    match rows {
        Ok(p) => Ok(CachedRankPageReply { last_leaderboard: rank_page_lines(p) }),
        Err(m) => Err(GrpcStatus { code: GrpcCode::InvalidArgument, message: m.clone() }),
    }
}

/// The full name of the player page service.
pub open spec fn service_name_text() -> Seq<char> {
    "player.PlayerPage"@
}

/// The path of its one method.
pub open spec fn history_method_path() -> Seq<char> {
    "/player.PlayerPage/GetPlayerHistoryMatches"@
}

/// Where a request of the player page server goes.
#[derive(Clone, Copy, Debug, PartialEq, Eq, Structural)]
pub enum GrpcRoute {
    GetPlayerHistoryMatches,
    /// Any other path: answered with status 200 and `grpc-status` 12.
    Unimplemented,
}

/// Routes a request by its path.
pub fn route(path: &str) -> (r: GrpcRoute)
    ensures
        r == GrpcRoute::GetPlayerHistoryMatches <==> path@ == history_method_path(),
{
    if str_equal(path, "/player.PlayerPage/GetPlayerHistoryMatches") {
        GrpcRoute::GetPlayerHistoryMatches
    } else {
        GrpcRoute::Unimplemented
    }
}

/// The name of the player page service.
pub fn service_name() -> (r: &'static str)
    ensures
        r@ == service_name_text(),
{
    "player.PlayerPage"
}

} // verus!
