//! The leaderboard request of the public Age of Empires IV API and the
//! enumerations that the service stores: match type, team size, region,
//! opponents. Each enumeration has the wire name that the API and the
//! database use for it.

use vstd::prelude::*;
use crate::text::str_equal;

verus! {

/// Ranked, unranked or custom games.
#[derive(Clone, Copy, Debug, PartialEq, Eq, Structural)]
pub enum MatchType {
    Unranked,
    Ranked,
    Custom,
}

/// The size of each team.
#[derive(Clone, Copy, Debug, PartialEq, Eq, Structural)]
pub enum TeamSize {
    T1v1,
    T2v2,
    T3v3,
    T4v4,
    Custom,
}

/// The region of a leaderboard; on the wire it is its number.
#[derive(Clone, Copy, Debug, PartialEq, Eq, Structural)]
pub enum Region {
    Europa,
    MiddleEast,
    Asia,
    NorthAmerica,
    SouthAmerica,
    Oceania,
    Africa,
    Global,
}

/// Games against the computer or against other players.
#[derive(Clone, Copy, Debug, PartialEq, Eq, Structural)]
pub enum Versus {
    AI,
    Players,
}

/// The wire name of a match type.
pub open spec fn match_type_name(m: MatchType) -> Seq<char> {
    match m {
        MatchType::Unranked => "unranked"@,
        MatchType::Ranked => "ranked"@,
        MatchType::Custom => "custom"@,
    }
}

/// The wire name of a team size.
pub open spec fn team_size_name(t: TeamSize) -> Seq<char> {
    match t {
        TeamSize::T1v1 => "1v1"@,
        TeamSize::T2v2 => "2v2"@,
        TeamSize::T3v3 => "3v3"@,
        TeamSize::T4v4 => "4v4"@,
        TeamSize::Custom => "custom"@,
    }
}

/// The wire name of an opponent kind.
pub open spec fn versus_name(v: Versus) -> Seq<char> {
    match v {
        Versus::AI => "ai"@,
        Versus::Players => "players"@,
    }
}

/// The number of a region on the wire.
pub open spec fn region_code(r: Region) -> u8 {
    match r {
        Region::Europa => 0,
        Region::MiddleEast => 1,
        Region::Asia => 2,
        Region::NorthAmerica => 3,
        Region::SouthAmerica => 4,
        Region::Oceania => 5,
        Region::Africa => 6,
        Region::Global => 7,
    }
}

impl MatchType {
    /// The name under which the match type is sent and stored.
    pub fn wire_name(&self) -> (r: &'static str)
        ensures
            r@ == match_type_name(*self),
            *self == MatchType::Unranked ==> r@ == "unranked"@,
            *self == MatchType::Ranked ==> r@ == "ranked"@,
            *self == MatchType::Custom ==> r@ == "custom"@,
    {
        match self {
            MatchType::Unranked => "unranked",
            MatchType::Ranked => "ranked",
            MatchType::Custom => "custom",
        }
    }

    /// The match type with the given wire name, if there is one.
    pub fn from_wire_name(s: &str) -> (r: Option<MatchType>)
        ensures
            match r {
                Some(m) => s@ == match_type_name(m),
                None => forall|m: MatchType| s@ != #[trigger] match_type_name(m),
            },
            s@ == "unranked"@ ==> r == Some(MatchType::Unranked),
            s@ == "ranked"@ ==> r == Some(MatchType::Ranked),
            s@ == "custom"@ ==> r == Some(MatchType::Custom),
    {
        proof {
            reveal_strlit("unranked");
            reveal_strlit("ranked");
            reveal_strlit("custom");
            assert("unranked"@.len() == 8 && "ranked"@[0] == 'r' && "custom"@[0] == 'c');
        }
        if str_equal(s, "unranked") {
            Some(MatchType::Unranked)
        } else if str_equal(s, "ranked") {
            Some(MatchType::Ranked)
        } else if str_equal(s, "custom") {
            Some(MatchType::Custom)
        } else {
            None
        }
    }
}

impl TeamSize {
    /// The name under which the team size is sent and stored.
    pub fn wire_name(&self) -> (r: &'static str)
        ensures
            r@ == team_size_name(*self),
            *self == TeamSize::T1v1 ==> r@ == "1v1"@,
            *self == TeamSize::T2v2 ==> r@ == "2v2"@,
            *self == TeamSize::T3v3 ==> r@ == "3v3"@,
            *self == TeamSize::T4v4 ==> r@ == "4v4"@,
            *self == TeamSize::Custom ==> r@ == "custom"@,
    {
        match self {
            TeamSize::T1v1 => "1v1",
            TeamSize::T2v2 => "2v2",
            TeamSize::T3v3 => "3v3",
            TeamSize::T4v4 => "4v4",
            TeamSize::Custom => "custom",
        }
    }

    /// The team size with the given wire name, if there is one.
    pub fn from_wire_name(s: &str) -> (r: Option<TeamSize>)
        ensures
            match r {
                Some(t) => s@ == team_size_name(t),
                None => forall|t: TeamSize| s@ != #[trigger] team_size_name(t),
            },
            s@ == "1v1"@ ==> r == Some(TeamSize::T1v1),
            s@ == "2v2"@ ==> r == Some(TeamSize::T2v2),
            s@ == "3v3"@ ==> r == Some(TeamSize::T3v3),
            s@ == "4v4"@ ==> r == Some(TeamSize::T4v4),
            s@ == "custom"@ ==> r == Some(TeamSize::Custom),
    {
        proof {
            reveal_strlit("1v1");
            reveal_strlit("2v2");
            reveal_strlit("3v3");
            reveal_strlit("4v4");
            reveal_strlit("custom");
            assert("1v1"@[0] == '1' && "2v2"@[0] == '2' && "3v3"@[0] == '3' && "4v4"@[0] == '4');
        }
        if str_equal(s, "1v1") {
            Some(TeamSize::T1v1)
        } else if str_equal(s, "2v2") {
            Some(TeamSize::T2v2)
        } else if str_equal(s, "3v3") {
            Some(TeamSize::T3v3)
        } else if str_equal(s, "4v4") {
            Some(TeamSize::T4v4)
        } else if str_equal(s, "custom") {
            Some(TeamSize::Custom)
        } else {
            None
        }
    }
}

impl Versus {
    /// The name under which the opponent kind is sent and stored.
    pub fn wire_name(&self) -> (r: &'static str)
        ensures
            r@ == versus_name(*self),
            *self == Versus::AI ==> r@ == "ai"@,
            *self == Versus::Players ==> r@ == "players"@,
    {
        match self {
            Versus::AI => "ai",
            Versus::Players => "players",
        }
    }

    /// The opponent kind with the given wire name, if there is one.
    pub fn from_wire_name(s: &str) -> (r: Option<Versus>)
        ensures
            match r {
                Some(v) => s@ == versus_name(v),
                None => forall|v: Versus| s@ != #[trigger] versus_name(v),
            },
            s@ == "ai"@ ==> r == Some(Versus::AI),
            s@ == "players"@ ==> r == Some(Versus::Players),
    {
        proof {
            reveal_strlit("ai");
            reveal_strlit("players");
            assert("ai"@.len() == 2 && "players"@.len() == 7);
        }
        if str_equal(s, "ai") {
            Some(Versus::AI)
        } else if str_equal(s, "players") {
            Some(Versus::Players)
        } else {
            None
        }
    }
}

impl Region {
    /// The number of the region on the wire.
    pub fn code(&self) -> (r: u8)
        ensures
            r == region_code(*self),
            *self == Region::Europa ==> r == 0,
            *self == Region::MiddleEast ==> r == 1,
            *self == Region::Asia ==> r == 2,
            *self == Region::NorthAmerica ==> r == 3,
            *self == Region::SouthAmerica ==> r == 4,
            *self == Region::Oceania ==> r == 5,
            *self == Region::Africa ==> r == 6,
            *self == Region::Global ==> r == 7,
    {
        match self {
            Region::Europa => 0,
            Region::MiddleEast => 1,
            Region::Asia => 2,
            Region::NorthAmerica => 3,
            Region::SouthAmerica => 4,
            Region::Oceania => 5,
            Region::Africa => 6,
            Region::Global => 7,
        }
    }

    /// The region with the given number, if there is one.
    pub fn from_code(c: u8) -> (r: Option<Region>)
        ensures
            match r {
                Some(g) => c == region_code(g),
                None => forall|g: Region| c != #[trigger] region_code(g),
            },
    {
        match c {
            0 => Some(Region::Europa),
            1 => Some(Region::MiddleEast),
            2 => Some(Region::Asia),
            3 => Some(Region::NorthAmerica),
            4 => Some(Region::SouthAmerica),
            5 => Some(Region::Oceania),
            6 => Some(Region::Africa),
            7 => Some(Region::Global),
            _ => None,
        }
    }
}

/// The match types go by the names `unranked`, `ranked` and `custom`.
pub proof fn lemma_match_type_names()
    ensures
        match_type_name(MatchType::Unranked) == "unranked"@,
        match_type_name(MatchType::Ranked) == "ranked"@,
        match_type_name(MatchType::Custom) == "custom"@,
{
}

/// The team sizes go by the names `1v1`, `2v2`, `3v3`, `4v4` and `custom`.
pub proof fn lemma_team_size_names()
    ensures
        team_size_name(TeamSize::T1v1) == "1v1"@,
        team_size_name(TeamSize::T2v2) == "2v2"@,
        team_size_name(TeamSize::T3v3) == "3v3"@,
        team_size_name(TeamSize::T4v4) == "4v4"@,
        team_size_name(TeamSize::Custom) == "custom"@,
{
}

/// The opponent kinds go by the names `ai` and `players`.
pub proof fn lemma_versus_names()
    ensures
        versus_name(Versus::AI) == "ai"@,
        versus_name(Versus::Players) == "players"@,
{
}

/// The regions are numbered in the order Europe, Middle East, Asia, North
/// America, South America, Oceania, Africa, and the global leaderboard is 7.
pub proof fn lemma_region_codes()
    ensures
        region_code(Region::Europa) == 0,
        region_code(Region::MiddleEast) == 1,
        region_code(Region::Asia) == 2,
        region_code(Region::NorthAmerica) == 3,
        region_code(Region::SouthAmerica) == 4,
        region_code(Region::Oceania) == 5,
        region_code(Region::Africa) == 6,
        region_code(Region::Global) == 7,
{
}

/// Distinct match types have distinct wire names, and the names read back.
pub proof fn lemma_match_type_names_distinct(a: MatchType, b: MatchType)
    ensures
        match_type_name(a) == match_type_name(b) ==> a == b,
{
    reveal_strlit("unranked");
    reveal_strlit("ranked");
    reveal_strlit("custom");
    if match_type_name(a) == match_type_name(b) && a != b {
        assert(match_type_name(a).len() != match_type_name(b).len() || match_type_name(a)[0]
            != match_type_name(b)[0]);
    }
}

/// Distinct team sizes have distinct wire names.
pub proof fn lemma_team_size_names_distinct(a: TeamSize, b: TeamSize)
    ensures
        team_size_name(a) == team_size_name(b) ==> a == b,
{
    reveal_strlit("1v1");
    reveal_strlit("2v2");
    reveal_strlit("3v3");
    reveal_strlit("4v4");
    reveal_strlit("custom");
    if team_size_name(a) == team_size_name(b) && a != b {
        assert(team_size_name(a).len() != team_size_name(b).len() || team_size_name(a)[0]
            != team_size_name(b)[0]);
    }
}

/// Distinct opponent kinds have distinct wire names.
pub proof fn lemma_versus_names_distinct(a: Versus, b: Versus)
    ensures
        versus_name(a) == versus_name(b) ==> a == b,
{
    reveal_strlit("ai");
    reveal_strlit("players");
    if versus_name(a) == versus_name(b) && a != b {
        assert(versus_name(a).len() != versus_name(b).len());
    }
}

/// Distinct regions have distinct numbers.
pub proof fn lemma_region_codes_distinct(a: Region, b: Region)
    ensures
        region_code(a) == region_code(b) ==> a == b,
{
}

/// The number of entries that one leaderboard page holds.
pub const LEADERBOARD_PAGE_SIZE: u32 = 100;

/// A request for one page of a leaderboard of the public API.
#[derive(Clone, Debug)]
pub struct AgeOfEmpiresLeaderboardRequest {
    pub region: Region,
    pub versus: Versus,
    pub match_type: MatchType,
    pub team_size: Option<TeamSize>,
    pub search_player: String,
    pub page: u32,
    pub count: u32,
}

impl AgeOfEmpiresLeaderboardRequest {
    /// A request for page `page` of the unranked leaderboard, a hundred
    /// entries per page, with no player searched for.
    pub fn new(page: u32, region: Region, team_size: Option<TeamSize>, versus: Versus) -> (r:
        AgeOfEmpiresLeaderboardRequest)
        ensures
            r.count == 100,
            r.match_type == MatchType::Unranked,
            r.page == page,
            r.region == region,
            r.search_player@ == Seq::<char>::empty(),
            r.team_size == team_size,
            r.versus == versus,
    {
        AgeOfEmpiresLeaderboardRequest {
            count: LEADERBOARD_PAGE_SIZE,
            match_type: MatchType::Unranked,
            page,
            region,
            search_player: String::new(),
            team_size,
            versus,
        }
    }
}

} // verus!
