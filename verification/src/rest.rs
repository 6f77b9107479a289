//! The rules of the REST front end: player search, match history, the dates
//! that have snapshots, and the rank page of a set of players, either at a
//! date or as their latest snapshots, which a cache keeps for ten minutes.

use vstd::prelude::*;
use vstd::string::*;
use crate::calendar::{iso_date_parse, CalendarDate};
use crate::request::{MatchType, TeamSize, Versus};
use crate::stored::{MatchHistory, MatchHistorySerializable};
use crate::text::{int_text, push_char, push_int};

verus! {

/// A player found by a search.
#[derive(Clone, Debug)]
pub struct SearchPlayer {
    pub username: String,
    pub rl_user_id: i64,
}

/// The players found by a search, and how many there are.
#[derive(Clone, Debug)]
pub struct SearchPlayers {
    pub players: Vec<SearchPlayer>,
    pub count: u32,
}

/// The `LIKE` pattern of a search: the name anywhere in the user name.
pub fn search_pattern(name: &str) -> (r: String)
    ensures
        r@ == seq!['%'] + name@ + seq!['%'],
{
    let mut s = String::new();
    push_char(&mut s, '%');
    s.append(name);
    push_char(&mut s, '%');
    s
}

/// The reply to a search: the players found and their number.
pub fn search_players_reply(players: Vec<SearchPlayer>) -> (r: SearchPlayers)
    ensures
        r.players@ == players@,
        r.count == players@.len() as u32,
{
    let count: u32 = players.len() as u32;
    SearchPlayers { count, players }
}

/// A player's standing on a rank page.
#[derive(Clone, Copy, Debug, PartialEq, Eq, Structural)]
pub struct RankPageAtTime {
    pub rank: i32,
    pub rl_user_id: i64,
    pub elo: i32,
    pub elo_rating: i32,
}

/// Which player a match history is asked for.
#[derive(Clone, Debug)]
pub struct RlUserId {
    pub rl_user_id: i64,
    pub time: Option<String>,
}

/// A player's match history: the snapshots and how many there are.
#[derive(Clone, Debug)]
pub struct MatchHistoryReply {
    pub count: i32,
    pub matches: Vec<MatchHistorySerializable>,
}

/// The dates are asked for one leaderboard.
#[derive(Clone, Copy, Debug)]
pub struct GetCachedDatesRequest {
    pub match_type: MatchType,
    pub versus: Versus,
    pub team_size: TeamSize,
}

/// The dates that have snapshots, as `YYYY-MM-DD`.
#[derive(Clone, Debug)]
pub struct GetCachedDatesReply {
    pub dates: Vec<String>,
}

/// A rank page asked for: players, leaderboard, and an optional date.
#[derive(Clone, Debug)]
pub struct CachedRankPageRequest {
    pub player_ids: Vec<i64>,
    pub match_type: MatchType,
    pub versus: Versus,
    pub team_size: TeamSize,
    pub time: Option<String>,
}

/// A rank page.
#[derive(Clone, Debug)]
pub struct CachedRankPageReply {
    pub last_leaderboard: Vec<CachedRankPageContent>,
}

/// One player's line on a rank page.
#[derive(Clone, Copy, Debug, PartialEq, Eq, Structural)]
pub struct CachedRankPageContent {
    pub rl_user_id: i64,
    pub rank: i32,
    pub elo: i32,
    pub elo_rating: i32,
}

/// The rank page query to run: at a date, or the latest snapshots.
#[derive(Clone, Debug)]
pub struct RankPageQuery {
    pub player_ids: Vec<i64>,
    pub date: Option<CalendarDate>,
    pub match_type: MatchType,
    pub team_size: TeamSize,
    pub versus: Versus,
}

/// The most players that one rank page may be asked for.
pub const MAX_RANK_PAGE_PLAYERS: usize = 100;

/// How long a cached standing stays in the cache.
pub const CACHE_TTL_SECONDS: u64 = 600;

/// A refusal of the REST front end.
#[derive(Clone, Debug, PartialEq, Eq)]
pub enum ApiError {
    /// The match history could not be read.
    IdNotFound,
    /// More than a hundred players were asked for.
    TooManyPlayerIds,
    /// The date is not `YYYY-MM-DD`; the text is the parser's message.
    UnprocessableDate(String),
    /// The database failed; the text is its message.
    Internal(String),
}

/// The HTTP status of a refusal.
pub open spec fn api_error_status(e: ApiError) -> u16 {
    match e {
        ApiError::IdNotFound => 400,
        ApiError::TooManyPlayerIds => 403,
        ApiError::UnprocessableDate(_) => 422,
        ApiError::Internal(_) => 500,
    }
}

/// The body of a refusal.
pub open spec fn api_error_body(e: ApiError) -> Seq<char> {
    match e {
        ApiError::IdNotFound => "Error Database: Id is not found in database"@,
        ApiError::TooManyPlayerIds => "Error too many player_ids: Slow down a bit u cannot request more than 100 entries. You think you should? Contact the server admin"@,
        ApiError::UnprocessableDate(m) => m@,
        ApiError::Internal(m) => m@,
    }
}

/// The statuses of the refusals: 400 for an unreadable match history, 403
/// for too many players, 422 for an unreadable date and 500 for a database
/// failure; the refusals that carry a message answer with it unchanged.
pub proof fn lemma_refusal_replies(m: String)
    ensures
        api_error_status(ApiError::IdNotFound) == 400,
        api_error_status(ApiError::TooManyPlayerIds) == 403,
        api_error_status(ApiError::UnprocessableDate(m)) == 422,
        api_error_status(ApiError::Internal(m)) == 500,
        api_error_body(ApiError::UnprocessableDate(m)) == m@,
        api_error_body(ApiError::Internal(m)) == m@,
        api_error_body(ApiError::IdNotFound) == "Error Database: Id is not found in database"@,
{
}

impl ApiError {
    /// The HTTP status of the refusal.
    pub fn status_code(&self) -> (r: u16)
        ensures
            r == api_error_status(*self),
    {
        match self {
            ApiError::IdNotFound => 400,
            ApiError::TooManyPlayerIds => 403,
            ApiError::UnprocessableDate(_) => 422,
            ApiError::Internal(_) => 500,
        }
    }

    /// The body of the refusal: `Error <name>: <message>` for the refusals of
    /// the service itself, the underlying message otherwise.
    pub fn error_response(&self) -> (r: String)
        ensures
            r@ == api_error_body(*self),
    {
        match self {
            ApiError::IdNotFound => String::from_str("Error Database: Id is not found in database"),
            ApiError::TooManyPlayerIds => String::from_str(
                "Error too many player_ids: Slow down a bit u cannot request more than 100 entries. You think you should? Contact the server admin",
            ),
            ApiError::UnprocessableDate(m) => m.clone(),
            ApiError::Internal(m) => m.clone(),
        }
    }
}

/// A player's match history, or the refusal when it could not be read.
pub fn player_history_reply(history: &Result<Vec<MatchHistory>, String>) -> (r: Result<
    MatchHistoryReply,
    ApiError,
>)
    requires
        history matches Ok(h) ==> forall|i: int| 0 <= i < h@.len() ==> (#[trigger] h@[i]).wf(),
    ensures
        match history {
            Ok(h) => r matches Ok(reply) && reply.count == h@.len() as i32 && reply.matches@.len()
                == h@.len() && forall|i: int|
                0 <= i < h@.len() ==> (#[trigger] reply.matches@[i]).serializes(h@[i]),
            Err(_) => r == Err::<MatchHistoryReply, ApiError>(ApiError::IdNotFound),
        },
{
    match history {
        Ok(h) => {
            let mut matches: Vec<MatchHistorySerializable> = Vec::new();
            let n: usize = h.len();
            let mut i: usize = 0;
            while i < n
                invariant
                    n == h@.len(),
                    i <= n,
                    matches@.len() == i,
                    forall|j: int| 0 <= j < h@.len() ==> (#[trigger] h@[j]).wf(),
                    forall|j: int| 0 <= j < i ==> (#[trigger] matches@[j]).serializes(h@[j]),
                decreases n - i,
            {
                matches.push(MatchHistorySerializable::from(&h[i]));
                i += 1;
            }
            Ok(MatchHistoryReply { count: n as i32, matches })
        },
        Err(_) => Err(ApiError::IdNotFound),
    }
}

/// The dates as `YYYY-MM-DD`, or the refusal with the database's message.
pub fn cached_dates_reply(dates: &Result<Vec<CalendarDate>, String>) -> (r: Result<
    GetCachedDatesReply,
    ApiError,
>)
    requires
        dates matches Ok(d) ==> forall|i: int| 0 <= i < d@.len() ==> (#[trigger] d@[i]).valid(),
    ensures
        match dates {
            Ok(d) => r matches Ok(reply) && reply.dates@.len() == d@.len() && forall|i: int|
                0 <= i < d@.len() ==> (#[trigger] reply.dates@[i])@ == d@[i].iso_text(),
            Err(m) => r == Err::<GetCachedDatesReply, ApiError>(ApiError::Internal(*m)),
        },
{
    match dates {
        Ok(d) => Ok(GetCachedDatesReply { dates: format_dates(d) }),
        Err(m) => Err(ApiError::Internal(m.clone())),
    }
}

/// Writes each date as `YYYY-MM-DD`.
pub fn format_dates(d: &Vec<CalendarDate>) -> (r: Vec<String>)
    requires
        forall|i: int| 0 <= i < d@.len() ==> (#[trigger] d@[i]).valid(),
    ensures
        r@.len() == d@.len(),
        forall|i: int| 0 <= i < d@.len() ==> (#[trigger] r@[i])@ == d@[i].iso_text(),
{
    let mut out: Vec<String> = Vec::new();
    let n: usize = d.len();
    let mut i: usize = 0;
    while i < n
        invariant
            n == d@.len(),
            i <= n,
            out@.len() == i,
            forall|j: int| 0 <= j < d@.len() ==> (#[trigger] d@[j]).valid(),
            forall|j: int| 0 <= j < i ==> (#[trigger] out@[j])@ == d@[j].iso_text(),
        decreases n - i,
    {
        out.push(d[i].to_iso_string());
        i += 1;
    }
    out
}

/// Which query a rank page request asks for.
///
/// More than a hundred players are refused. With a date, the date must read
/// as `YYYY-MM-DD`, and the standings at that date are asked for; without
/// one, the latest standings.
pub fn plan_cached_rank_page(request: CachedRankPageRequest) -> (r: Result<RankPageQuery, ApiError>)
    ensures
        (r == Err::<RankPageQuery, ApiError>(ApiError::TooManyPlayerIds)) <==> request.player_ids@.len()
            > MAX_RANK_PAGE_PLAYERS,
        request.player_ids@.len() <= MAX_RANK_PAGE_PLAYERS ==> match request.time {
            None => r matches Ok(q) && q.date is None && q.player_ids@ == request.player_ids@
                && q.match_type == request.match_type && q.team_size == request.team_size
                && q.versus == request.versus,
            Some(t) => match iso_date_parse(t@) {
                Ok((y, m, d)) => r matches Ok(q) && q.date matches Some(date) && date.year == y
                    && date.month == m && date.day == d && q.player_ids@ == request.player_ids@
                    && q.match_type == request.match_type && q.team_size == request.team_size
                    && q.versus == request.versus,
                Err(e) => r matches Err(ApiError::UnprocessableDate(msg)) && msg@ == e,
            },
        },
{
    if request.player_ids.len() > MAX_RANK_PAGE_PLAYERS {
        return Err(ApiError::TooManyPlayerIds);
    }
    let date = match &request.time {
        Some(t) => match CalendarDate::parse_iso(t.as_str()) {
            Ok(d) => Some(d),
            Err(e) => {
                return Err(ApiError::UnprocessableDate(e));
            },
        },
        None => None,
    };
    Ok(
        RankPageQuery {
            player_ids: request.player_ids,
            date,
            match_type: request.match_type,
            team_size: request.team_size,
            versus: request.versus,
        },
    )
}

/// Whether a rank page line shows a standing.
pub open spec fn shows(c: CachedRankPageContent, p: RankPageAtTime) -> bool {
    c.rl_user_id == p.rl_user_id && c.rank == p.rank && c.elo == p.elo && c.elo_rating
        == p.elo_rating
}

/// A rank page line shows a standing exactly when it is made of that
/// standing's own player, rank, points and rating.
pub proof fn lemma_line_is_the_standing(c: CachedRankPageContent, p: RankPageAtTime)
    ensures
        shows(c, p) <==> c == (CachedRankPageContent {
            rl_user_id: p.rl_user_id,
            rank: p.rank,
            elo: p.elo,
            elo_rating: p.elo_rating,
        }),
{
}

/// The rank page of the standings found, or the refusal with the database's
/// message.
pub fn rank_page_reply(rows: &Result<Vec<RankPageAtTime>, String>) -> (r: Result<
    CachedRankPageReply,
    ApiError,
>)
    ensures
        match rows {
            Ok(p) => r matches Ok(reply) && reply.last_leaderboard@.len() == p@.len() && (forall|
                i: int,
            | 0 <= i < p@.len() ==> shows(#[trigger] reply.last_leaderboard@[i], p@[i])) && (
            forall|i: int|
                0 <= i < p@.len() ==> #[trigger] reply.last_leaderboard@[i] == (
                CachedRankPageContent {
                    rl_user_id: p@[i].rl_user_id,
                    rank: p@[i].rank,
                    elo: p@[i].elo,
                    elo_rating: p@[i].elo_rating,
                })),
            Err(m) => r == Err::<CachedRankPageReply, ApiError>(ApiError::Internal(*m)),
        },
{
    match rows {
        Ok(p) => Ok(CachedRankPageReply { last_leaderboard: rank_page_lines(p) }),
        Err(m) => Err(ApiError::Internal(m.clone())),
    }
}

/// One rank page line per standing, in the same order.
pub fn rank_page_lines(p: &Vec<RankPageAtTime>) -> (r: Vec<CachedRankPageContent>)
    ensures
        r@.len() == p@.len(),
        forall|i: int| 0 <= i < p@.len() ==> shows(#[trigger] r@[i], p@[i]),
        forall|i: int|
            0 <= i < p@.len() ==> (#[trigger] r@[i]).rl_user_id == p@[i].rl_user_id && r@[i].rank
                == p@[i].rank && r@[i].elo == p@[i].elo && r@[i].elo_rating == p@[i].elo_rating,
{
    let mut out: Vec<CachedRankPageContent> = Vec::new();
    let n: usize = p.len();
    let mut i: usize = 0;
    while i < n
        invariant
            n == p@.len(),
            i <= n,
            out@.len() == i,
            forall|j: int| 0 <= j < i ==> shows(#[trigger] out@[j], p@[j]),
            forall|j: int|
                0 <= j < i ==> (#[trigger] out@[j]).rl_user_id == p@[j].rl_user_id && out@[j].rank
                    == p@[j].rank && out@[j].elo == p@[j].elo && out@[j].elo_rating
                    == p@[j].elo_rating,
        decreases n - i,
    {
        let e = p[i];
        out.push(
            CachedRankPageContent {
                rank: e.rank,
                rl_user_id: e.rl_user_id,
                elo_rating: e.elo_rating,
                elo: e.elo,
            },
        );
        i += 1;
    }
    out
}

/// The cache key under which a player's latest standing is kept.
pub open spec fn cache_key_text(player_id: i64) -> Seq<char> {
    "cached-leaderboard-"@ + int_text(player_id as int)
}

/// The cache key of a player: `cached-leaderboard-<id>`.
pub fn cache_key(player_id: i64) -> (r: String)
    ensures
        r@ == cache_key_text(player_id),
{
    let mut s = String::from_str("cached-leaderboard-");
    push_int(&mut s, player_id);
    s
}

/// Distinct players have distinct cache keys.
pub proof fn lemma_cache_key_injective(a: i64, b: i64)
    ensures
        cache_key_text(a) == cache_key_text(b) ==> a == b,
{
    if cache_key_text(a) == cache_key_text(b) {
        let p = "cached-leaderboard-"@;
        let ka = cache_key_text(a);
        assert(ka.subrange(p.len() as int, ka.len() as int) =~= int_text(a as int));
        assert(ka.subrange(p.len() as int, ka.len() as int) =~= int_text(b as int));
        crate::text::lemma_int_text_injective(a as int, b as int);
    }
}

/// What the cache holds for a player.
#[derive(Clone, Copy, Debug, PartialEq, Eq, Structural)]
pub enum CacheLookup {
    /// Nothing: the player's standing is read from the database.
    Missing,
    /// The cached standing.
    Cached(RankPageAtTime),
    /// Something else than a standing: the player is left out.
    Unusable,
}

/// The standings found in the cache, in the order of the players.
pub open spec fn cached_pages(lookups: Seq<CacheLookup>) -> Seq<RankPageAtTime>
    decreases lookups.len(),
{
    if lookups.len() == 0 {
        Seq::empty()
    } else {
        let rest = cached_pages(lookups.drop_last());
        match lookups.last() {
            CacheLookup::Cached(p) => rest.push(p),
            _ => rest,
        }
    }
}

/// The players that the cache has nothing for, in their order.
pub open spec fn missing_ids(ids: Seq<i64>, lookups: Seq<CacheLookup>) -> Seq<i64>
    decreases ids.len(),
{
    if ids.len() == 0 || lookups.len() == 0 {
        Seq::empty()
    } else {
        let rest = missing_ids(ids.drop_last(), lookups.drop_last());
        match lookups.last() {
            CacheLookup::Missing => rest.push(ids.last()),
            _ => rest,
        }
    }
}

/// The players for which the cache holds something that is not a standing.
pub open spec fn unusable_count(lookups: Seq<CacheLookup>) -> nat
    decreases lookups.len(),
{
    if lookups.len() == 0 {
        0
    } else {
        unusable_count(lookups.drop_last()) + if lookups.last() is Unusable {
            1nat
        } else {
            0nat
        }
    }
}

/// What the cache gave: the standings found, and the players to read from
/// the database.
#[derive(Clone, Debug)]
pub struct CacheSplit {
    pub cached: Vec<RankPageAtTime>,
    pub to_query: Vec<i64>,
}

impl CacheSplit {
    /// Whether some players are still to be read from the database.
    pub fn needs_database(&self) -> (r: bool)
        ensures
            r == (self.to_query@.len() > 0),
    {
        self.to_query.len() > 0
    }
}

/// Splits the cache lookups of the players (one per player, in order) into
/// the standings found and the players still to read.
pub fn split_cache_lookups(player_ids: &Vec<i64>, lookups: &Vec<CacheLookup>) -> (r: CacheSplit)
    requires
        player_ids@.len() == lookups@.len(),
    ensures
        r.cached@ == cached_pages(lookups@),
        r.to_query@ == missing_ids(player_ids@, lookups@),
{
    let mut cached: Vec<RankPageAtTime> = Vec::new();
    let mut to_query: Vec<i64> = Vec::new();
    let n: usize = lookups.len();
    let mut i: usize = 0;
    while i < n
        invariant
            n == lookups@.len(),
            n == player_ids@.len(),
            i <= n,
            cached@ == cached_pages(lookups@.subrange(0, i as int)),
            to_query@ == missing_ids(player_ids@.subrange(0, i as int), lookups@.subrange(0, i as int)),
        decreases n - i,
    {
        let ghost li = lookups@.subrange(0, i as int + 1);
        let ghost pi = player_ids@.subrange(0, i as int + 1);
        assert(li.drop_last() =~= lookups@.subrange(0, i as int));
        assert(pi.drop_last() =~= player_ids@.subrange(0, i as int));
        match lookups[i] {
            CacheLookup::Missing => {
                to_query.push(player_ids[i]);
            },
            CacheLookup::Cached(p) => {
                cached.push(p);
            },
            CacheLookup::Unusable => {},
        }
        i += 1;
    }
    assert(lookups@.subrange(0, n as int) =~= lookups@);
    assert(player_ids@.subrange(0, n as int) =~= player_ids@);
    CacheSplit { cached, to_query }
}

/// Every player is accounted for: found in the cache, to be read from the
/// database, or left out because the cache held something else.
pub proof fn lemma_cache_split_accounts_for_every_player(ids: Seq<i64>, lookups: Seq<CacheLookup>)
    requires
        ids.len() == lookups.len(),
    ensures
        cached_pages(lookups).len() + missing_ids(ids, lookups).len() + unusable_count(lookups)
            == ids.len(),
    decreases ids.len(),
{
    if ids.len() > 0 {
        lemma_cache_split_accounts_for_every_player(ids.drop_last(), lookups.drop_last());
    }
}

/// What the cache gives for each player when it holds the standings of a
/// map from player to standing (within the ten minutes that entries live).
pub open spec fn cache_lookups(cache: Map<i64, RankPageAtTime>, ids: Seq<i64>) -> Seq<CacheLookup> {
    Seq::new(
        ids.len(),
        |i: int|
            if cache.contains_key(ids[i]) {
                CacheLookup::Cached(cache[ids[i]])
            } else {
                CacheLookup::Missing
            },
    )
}

/// The cache after the standings read from the database were written to it,
/// each under its player.
pub open spec fn cache_after_fill(cache: Map<i64, RankPageAtTime>, rows: Seq<RankPageAtTime>) -> Map<
    i64,
    RankPageAtTime,
>
    decreases rows.len(),
{
    if rows.len() == 0 {
        cache
    } else {
        cache_after_fill(cache, rows.drop_last()).insert(rows.last().rl_user_id, rows.last())
    }
}

/// The players, in order, that the cache holds nothing for.
pub open spec fn uncached_ids(cache: Map<i64, RankPageAtTime>, ids: Seq<i64>) -> Seq<i64>
    decreases ids.len(),
{
    if ids.len() == 0 {
        Seq::empty()
    } else {
        let rest = uncached_ids(cache, ids.drop_last());
        if cache.contains_key(ids.last()) {
            rest
        } else {
            rest.push(ids.last())
        }
    }
}

/// With the cache as a map, the players read from the database are exactly
/// those that the map holds nothing for, and every other one is answered
/// from the cache.
pub proof fn lemma_split_of_cache(cache: Map<i64, RankPageAtTime>, ids: Seq<i64>)
    ensures
        missing_ids(ids, cache_lookups(cache, ids)) == uncached_ids(cache, ids),
        cached_pages(cache_lookups(cache, ids)).len() + uncached_ids(cache, ids).len() == ids.len(),
    decreases ids.len(),
{
    if ids.len() > 0 {
        let l = cache_lookups(cache, ids);
        assert(l.drop_last() =~= cache_lookups(cache, ids.drop_last()));
        lemma_split_of_cache(cache, ids.drop_last());
        lemma_cache_split_accounts_for_every_player(ids, l);
        lemma_no_unusable(cache, ids);
    }
}

/// A map-held cache gives nothing unusable.
proof fn lemma_no_unusable(cache: Map<i64, RankPageAtTime>, ids: Seq<i64>)
    ensures
        unusable_count(cache_lookups(cache, ids)) == 0,
    decreases ids.len(),
{
    if ids.len() > 0 {
        assert(cache_lookups(cache, ids).drop_last() =~= cache_lookups(cache, ids.drop_last()));
        lemma_no_unusable(cache, ids.drop_last());
    }
}

/// After the standings read were written to the cache, the cache holds an
/// entry for each of their players, and keeps every entry it had.
pub proof fn lemma_fill_covers(cache: Map<i64, RankPageAtTime>, rows: Seq<RankPageAtTime>, id: i64)
    ensures
        (cache.contains_key(id) || exists|k: int| 0 <= k < rows.len() && (#[trigger] rows[k]).rl_user_id
            == id) ==> cache_after_fill(cache, rows).contains_key(id),
    decreases rows.len(),
{
    if rows.len() > 0 {
        lemma_fill_covers(cache, rows.drop_last(), id);
        if exists|k: int| 0 <= k < rows.len() && (#[trigger] rows[k]).rl_user_id == id {
            let k = choose|k: int| 0 <= k < rows.len() && (#[trigger] rows[k]).rl_user_id == id;
            if k < rows.len() - 1 {
                assert(rows.drop_last()[k] == rows[k]);
            }
        }
    }
}

/// A second request for the same players, while the cache entries live,
/// reads from the database only the players that neither the cache held
/// before nor the first reply had a standing for.
pub proof fn lemma_second_lookup_reuses_cache(
    cache: Map<i64, RankPageAtTime>,
    rows: Seq<RankPageAtTime>,
    ids: Seq<i64>,
)
    ensures
        forall|id: i64|
            #![trigger uncached_ids(cache_after_fill(cache, rows), ids).contains(id)]
            uncached_ids(cache_after_fill(cache, rows), ids).contains(id) ==> ids.contains(id)
                && !cache.contains_key(id) && forall|k: int|
                0 <= k < rows.len() ==> (#[trigger] rows[k]).rl_user_id != id,
{
    assert forall|id: i64|
        #![trigger uncached_ids(cache_after_fill(cache, rows), ids).contains(id)]
        uncached_ids(cache_after_fill(cache, rows), ids).contains(id) implies ids.contains(id)
            && !cache.contains_key(id) && forall|k: int|
            0 <= k < rows.len() ==> (#[trigger] rows[k]).rl_user_id != id by {
        lemma_uncached_facts(cache_after_fill(cache, rows), ids, id);
        lemma_fill_covers(cache, rows, id);
    }
}

/// A player that the cache holds nothing for is one of the players asked
/// for, and the cache has no entry for it.
proof fn lemma_uncached_facts(cache: Map<i64, RankPageAtTime>, ids: Seq<i64>, id: i64)
    ensures
        uncached_ids(cache, ids).contains(id) ==> ids.contains(id) && !cache.contains_key(id),
    decreases ids.len(),
{
    if ids.len() > 0 {
        lemma_uncached_facts(cache, ids.drop_last(), id);
        let rest = uncached_ids(cache, ids.drop_last());
        if uncached_ids(cache, ids).contains(id) {
            if rest.contains(id) {
                let k = choose|k: int| 0 <= k < ids.drop_last().len() && ids.drop_last()[k] == id;
                assert(ids[k] == id);
            } else {
                assert(ids[ids.len() - 1] == id);
            }
        }
    }
}

/// The standings that the database holds, each under its own player.
pub open spec fn db_keyed(db: Map<i64, RankPageAtTime>) -> bool {
    forall|id: i64| #[trigger] db.contains_key(id) ==> db[id].rl_user_id == id
}

/// `rows` is what the database answers for `ids`: one standing for each of
/// these players that it has one for, in any order.
pub open spec fn db_answers(db: Map<i64, RankPageAtTime>, ids: Seq<i64>, rows: Seq<RankPageAtTime>) -> bool {
    &&& rows.no_duplicates()
    &&& forall|x: RankPageAtTime|
        rows.contains(x) <==> exists|k: int|
            0 <= k < ids.len() && db.contains_key(#[trigger] ids[k]) && db[ids[k]] == x
}

/// The latest rank page of the players: the cached standings in the order of
/// the players, then the rows that the database gave.
pub open spec fn latest_rank_page(
    cache: Map<i64, RankPageAtTime>,
    ids: Seq<i64>,
    rows: Seq<RankPageAtTime>,
) -> Seq<RankPageAtTime> {
    cached_pages(cache_lookups(cache, ids)) + rows
}

/// A cache that holds none of the players gives no standing and leaves every
/// player to the database.
proof fn lemma_cold_cache(cache: Map<i64, RankPageAtTime>, ids: Seq<i64>)
    requires
        forall|k: int| 0 <= k < ids.len() ==> !cache.contains_key(#[trigger] ids[k]),
    ensures
        uncached_ids(cache, ids) == ids,
        cached_pages(cache_lookups(cache, ids)) == Seq::<RankPageAtTime>::empty(),
    decreases ids.len(),
{
    if ids.len() > 0 {
        let d = ids.drop_last();
        assert forall|k: int| 0 <= k < d.len() implies !cache.contains_key(#[trigger] d[k]) by {
            assert(d[k] == ids[k]);
        }
        lemma_cold_cache(cache, d);
        assert(cache_lookups(cache, ids).drop_last() =~= cache_lookups(cache, d));
        assert(!cache.contains_key(ids[ids.len() - 1]));
        assert(d.push(ids.last()) =~= ids);
    }
}

/// After writing standings that the database holds, the cache gives, for
/// each of their players, the database's standing.
proof fn lemma_fill_value(
    db: Map<i64, RankPageAtTime>,
    cache: Map<i64, RankPageAtTime>,
    rows: Seq<RankPageAtTime>,
    id: i64,
)
    requires
        db_keyed(db),
        forall|j: int| 0 <= j < rows.len() ==> db.contains_key((#[trigger] rows[j]).rl_user_id)
            && db[rows[j].rl_user_id] == rows[j],
    ensures
        cache_after_fill(cache, rows).contains_key(id) <==> cache.contains_key(id) || exists|j: int|
            0 <= j < rows.len() && (#[trigger] rows[j]).rl_user_id == id,
        (exists|j: int| 0 <= j < rows.len() && (#[trigger] rows[j]).rl_user_id == id)
            ==> cache_after_fill(cache, rows)[id] == db[id],
    decreases rows.len(),
{
    if rows.len() > 0 {
        let d = rows.drop_last();
        assert forall|j: int| 0 <= j < d.len() implies db.contains_key((#[trigger] d[j]).rl_user_id)
            && db[d[j].rl_user_id] == d[j] by {
            assert(d[j] == rows[j]);
        }
        lemma_fill_value(db, cache, d, id);
        let last = rows[rows.len() - 1];
        if exists|j: int| 0 <= j < rows.len() && (#[trigger] rows[j]).rl_user_id == id {
            let j = choose|j: int| 0 <= j < rows.len() && (#[trigger] rows[j]).rl_user_id == id;
            if j < rows.len() - 1 {
                assert(d[j] == rows[j]);
            }
        }
        if exists|j: int| 0 <= j < d.len() && (#[trigger] d[j]).rl_user_id == id {
            let j = choose|j: int| 0 <= j < d.len() && (#[trigger] d[j]).rl_user_id == id;
            assert(rows[j] == d[j]);
        }
    }
}

/// The standings that a cache gives for distinct players: what it holds for
/// each, without repeats when each standing is kept under its own player.
proof fn lemma_cached_pages_content(m: Map<i64, RankPageAtTime>, ids: Seq<i64>)
    requires
        ids.no_duplicates(),
        forall|id: i64| #[trigger] m.contains_key(id) ==> m[id].rl_user_id == id,
    ensures
        cached_pages(cache_lookups(m, ids)).no_duplicates(),
        forall|x: RankPageAtTime|
            cached_pages(cache_lookups(m, ids)).contains(x) <==> exists|k: int|
                0 <= k < ids.len() && m.contains_key(#[trigger] ids[k]) && m[ids[k]] == x,
        forall|x: RankPageAtTime|
            cached_pages(cache_lookups(m, ids)).contains(x) ==> exists|k: int|
                0 <= k < ids.len() && x.rl_user_id == #[trigger] ids[k],
    decreases ids.len(),
{
    if ids.len() > 0 {
        let d = ids.drop_last();
        let last = ids[ids.len() - 1];
        assert(d.no_duplicates());
        lemma_cached_pages_content(m, d);
        let l = cache_lookups(m, ids);
        assert(l.drop_last() =~= cache_lookups(m, d));
        let prev = cached_pages(cache_lookups(m, d));
        let cur = cached_pages(l);
        if m.contains_key(last) {
            assert(cur == prev.push(m[last]));
            assert(!prev.contains(m[last])) by {
                if prev.contains(m[last]) {
                    let k = choose|k: int| 0 <= k < d.len() && m[last].rl_user_id == #[trigger] d[k];
                    assert(ids[k] == d[k]);
                }
            }
            assert forall|x: RankPageAtTime| cur.contains(x) <==> exists|k: int|
                0 <= k < ids.len() && m.contains_key(#[trigger] ids[k]) && m[ids[k]] == x by {
                if cur.contains(x) {
                    let i = choose|i: int| 0 <= i < cur.len() && cur[i] == x;
                    if i < prev.len() {
                        assert(prev[i] == x);
                        assert(prev.contains(x));
                        let k = choose|k: int| 0 <= k < d.len() && m.contains_key(#[trigger] d[k]) && m[d[k]] == x;
                        assert(ids[k] == d[k]);
                    } else {
                        assert(ids[ids.len() - 1] == last);
                    }
                }
                if exists|k: int| 0 <= k < ids.len() && m.contains_key(#[trigger] ids[k]) && m[ids[k]] == x {
                    let k = choose|k: int| 0 <= k < ids.len() && m.contains_key(#[trigger] ids[k]) && m[ids[k]] == x;
                    if k < ids.len() - 1 {
                        assert(d[k] == ids[k]);
                        assert(prev.contains(x));
                        let i = choose|i: int| 0 <= i < prev.len() && prev[i] == x;
                        assert(cur[i] == x);
                    } else {
                        assert(cur[cur.len() - 1] == x);
                    }
                }
            }
            assert forall|x: RankPageAtTime| cur.contains(x) implies exists|k: int|
                0 <= k < ids.len() && x.rl_user_id == #[trigger] ids[k] by {
                let i = choose|i: int| 0 <= i < cur.len() && cur[i] == x;
                if i < prev.len() {
                    assert(prev[i] == x);
                    assert(prev.contains(x));
                    let k = choose|k: int| 0 <= k < d.len() && x.rl_user_id == #[trigger] d[k];
                    assert(ids[k] == d[k]);
                } else {
                    assert(ids[ids.len() - 1] == last);
                }
            }
            assert(cur.no_duplicates()) by {
                assert forall|i: int, j: int| 0 <= i < cur.len() && 0 <= j < cur.len() && i != j
                    implies cur[i] != cur[j] by {
                    if i < prev.len() && j < prev.len() {
                        assert(prev[i] == cur[i] && prev[j] == cur[j]);
                    } else if i < prev.len() {
                        assert(prev[i] == cur[i]);
                        assert(prev.contains(cur[i]));
                    } else if j < prev.len() {
                        assert(prev[j] == cur[j]);
                        assert(prev.contains(cur[j]));
                    }
                }
            }
        } else {
            assert(cur == prev);
            assert forall|x: RankPageAtTime| cur.contains(x) <==> exists|k: int|
                0 <= k < ids.len() && m.contains_key(#[trigger] ids[k]) && m[ids[k]] == x by {
                if exists|k: int| 0 <= k < ids.len() && m.contains_key(#[trigger] ids[k]) && m[ids[k]] == x {
                    let k = choose|k: int| 0 <= k < ids.len() && m.contains_key(#[trigger] ids[k]) && m[ids[k]] == x;
                    assert(k < ids.len() - 1);
                    assert(d[k] == ids[k]);
                }
                if prev.contains(x) {
                    let k = choose|k: int| 0 <= k < d.len() && m.contains_key(#[trigger] d[k]) && m[d[k]] == x;
                    assert(ids[k] == d[k]);
                }
            }
            assert forall|x: RankPageAtTime| cur.contains(x) implies exists|k: int|
                0 <= k < ids.len() && x.rl_user_id == #[trigger] ids[k] by {
                let k = choose|k: int| 0 <= k < d.len() && x.rl_user_id == #[trigger] d[k];
                assert(ids[k] == d[k]);
            }
        }
    }
}

/// The latest rank page of distinct players that the cache held none of,
/// asked for again while the entries written by the first request live and
/// the database is unchanged, is the same standings in another order: the
/// second request reads nothing from the database, and both pages hold,
/// once each, the database's standing of each player that it has one for.
pub proof fn lemma_second_rank_page_is_a_permutation(
    db: Map<i64, RankPageAtTime>,
    cache: Map<i64, RankPageAtTime>,
    ids: Seq<i64>,
    rows1: Seq<RankPageAtTime>,
    rows2: Seq<RankPageAtTime>,
)
    requires
        ids.no_duplicates(),
        db_keyed(db),
        forall|k: int| 0 <= k < ids.len() ==> !cache.contains_key(#[trigger] ids[k]),
        db_answers(db, uncached_ids(cache, ids), rows1),
        db_answers(db, uncached_ids(cache_after_fill(cache, rows1), ids), rows2),
    ensures
        rows2.len() == 0,
        latest_rank_page(cache_after_fill(cache, rows1), ids, rows2).len() == latest_rank_page(
            cache,
            ids,
            rows1,
        ).len(),
        latest_rank_page(cache, ids, rows1).no_duplicates(),
        latest_rank_page(cache_after_fill(cache, rows1), ids, rows2).no_duplicates(),
        forall|x: RankPageAtTime|
            latest_rank_page(cache, ids, rows1).contains(x) <==> latest_rank_page(
                cache_after_fill(cache, rows1),
                ids,
                rows2,
            ).contains(x),
{
    lemma_cold_cache(cache, ids);
    let cache1 = cache_after_fill(cache, rows1);
    let v1 = latest_rank_page(cache, ids, rows1);
    assert(v1 =~= rows1);
    // every row of the first answer is the database's standing of its player
    assert forall|j: int| 0 <= j < rows1.len() implies db.contains_key((#[trigger] rows1[j]).rl_user_id)
        && db[rows1[j].rl_user_id] == rows1[j] by {
        assert(rows1.contains(rows1[j]));
        let k = choose|k: int| 0 <= k < ids.len() && db.contains_key(#[trigger] ids[k]) && db[ids[k]]
            == rows1[j];
    }
    // the cache after the first request holds exactly the players that the
    // database has, with the database's standings
    assert forall|k: int| 0 <= k < ids.len() implies (cache1.contains_key(#[trigger] ids[k])
        <==> db.contains_key(ids[k])) && (db.contains_key(ids[k]) ==> cache1[ids[k]] == db[ids[k]]) by {
        let id = ids[k];
        lemma_fill_value(db, cache, rows1, id);
        if db.contains_key(id) {
            assert(rows1.contains(db[id]));
            let j = choose|j: int| 0 <= j < rows1.len() && rows1[j] == db[id];
            assert(rows1[j].rl_user_id == id);
        }
        if exists|j: int| 0 <= j < rows1.len() && (#[trigger] rows1[j]).rl_user_id == id {
            let j = choose|j: int| 0 <= j < rows1.len() && (#[trigger] rows1[j]).rl_user_id == id;
            assert(db.contains_key(rows1[j].rl_user_id));
        }
    }
    // so the second request asks the database only for players it has
    // nothing for, and gets nothing
    let u2 = uncached_ids(cache1, ids);
    if rows2.len() > 0 {
        assert(rows2.contains(rows2[0]));
        let k = choose|k: int| 0 <= k < u2.len() && db.contains_key(#[trigger] u2[k]) && db[u2[k]] == rows2[0];
        assert(u2.contains(u2[k]));
        lemma_uncached_facts(cache1, ids, u2[k]);
        let i = choose|i: int| 0 <= i < ids.len() && ids[i] == u2[k];
        assert(cache1.contains_key(ids[i]) <==> db.contains_key(ids[i]));
    }
    let c2 = cached_pages(cache_lookups(cache1, ids));
    let v2 = latest_rank_page(cache1, ids, rows2);
    assert(v2 =~= c2);
    // restricted to the players asked for, the cache keeps each standing
    // under its own player
    let m = Map::new(|id: i64| cache1.contains_key(id) && ids.contains(id), |id: i64| cache1[id]);
    assert forall|id: i64| #[trigger] m.contains_key(id) implies m[id].rl_user_id == id by {
        let k = choose|k: int| 0 <= k < ids.len() && ids[k] == id;
        assert(cache1.contains_key(ids[k]));
    }
    assert(cache_lookups(m, ids) =~= cache_lookups(cache1, ids)) by {
        assert forall|k: int| 0 <= k < ids.len() implies cache_lookups(m, ids)[k] == cache_lookups(
            cache1,
            ids,
        )[k] by {
            assert(ids.contains(ids[k]));
        }
    }
    lemma_cached_pages_content(m, ids);
    assert forall|x: RankPageAtTime| v1.contains(x) <==> v2.contains(x) by {
        if v1.contains(x) {
            let k = choose|k: int| 0 <= k < ids.len() && db.contains_key(#[trigger] ids[k]) && db[ids[k]] == x;
            assert(ids.contains(ids[k]));
            assert(m.contains_key(ids[k]));
        }
        if v2.contains(x) {
            let k = choose|k: int| 0 <= k < ids.len() && m.contains_key(#[trigger] ids[k]) && m[ids[k]] == x;
            assert(rows1.contains(x));
        }
    }
    rows1.unique_seq_to_set();
    c2.unique_seq_to_set();
    assert(rows1.to_set() =~= c2.to_set());
}

/// The latest rank page: the cached standings first, then those read from
/// the database.
pub fn merge_rank_pages(cached: Vec<RankPageAtTime>, fetched: Vec<RankPageAtTime>) -> (r: Vec<
    RankPageAtTime,
>)
    ensures
        r@ == cached@ + fetched@,
{
    let mut out = cached;
    let mut more = fetched;
    out.append(&mut more);
    out
}

} // verus!
