//! The crawler's schedule: which leaderboard page to fetch next, when to wait
//! and retry after a failure, and when to give up.
//!
//! The first page is fetched first; it tells how many pages there are. A
//! failed first page is retried after a pause until five attempts have been
//! made. Every further page is fetched after a pause, and a failure is
//! retried until the attempt counter, which starts where the first page left
//! it, reaches ten; then that page is skipped.

use vstd::prelude::*;
use crate::leaderboard::Leaderboard;
use crate::request::{AgeOfEmpiresLeaderboardRequest, Region, TeamSize, Versus};

verus! {

/// Below this many attempts a failed first page is tried again.
pub const FIRST_PAGE_ATTEMPTS: u8 = 5;

/// Below this attempt count a failed page is tried again.
pub const PAGE_ATTEMPT_LIMIT: u8 = 10;

/// The pause before a retry of the first page and before every other page.
pub const PAUSE_SECONDS: u64 = 2;

/// The HTTP status of a successful reply.
pub const STATUS_OK: u16 = 200;

/// What the crawler waits for.
#[derive(Clone, Copy, Debug, PartialEq, Eq, Structural)]
pub enum CrawlState {
    /// The first page was asked for; `tries` counts the attempts so far.
    FirstPage { tries: u8 },
    /// Page `page` of `last_page` was asked for; `tries` counts the attempt
    /// counter, which starts at `base_tries` for every page.
    Page { page: u32, last_page: u32, base_tries: u8, tries: u8 },
    /// Nothing more is fetched.
    Done,
}

/// How the fetch of a page went. For the first page, `page_count` is the
/// number of pages that its reply announces.
#[derive(Clone, Copy, Debug, PartialEq, Eq, Structural)]
pub enum FetchOutcome {
    Fetched { page_count: u32 },
    Failed,
}

/// What the crawler does next.
#[derive(Clone, Copy, Debug, PartialEq, Eq, Structural)]
pub enum CrawlAction {
    Fetch { page: u32, pause_seconds: u64 },
    Stop,
}

/// The decision after a fetch: whether the page fetched is stored, and what
/// comes next.
#[derive(Clone, Copy, Debug, PartialEq, Eq, Structural)]
pub struct CrawlStep {
    pub save_page: bool,
    pub next: CrawlAction,
}

/// The states that a crawl passes through: at most five attempts at the
/// first page, and at most ten at any later page.
pub open spec fn crawl_state_ok(s: CrawlState) -> bool {
    match s {
        CrawlState::FirstPage { tries } => 1 <= tries <= 5,
        CrawlState::Page { page, last_page, base_tries, tries } => {
            &&& 2 <= page <= last_page
            &&& 1 <= base_tries <= 5
            &&& base_tries <= tries <= 10
        },
        CrawlState::Done => true,
    }
}

/// The number of times the page awaited has been asked for.
pub open spec fn attempts(s: CrawlState) -> int {
    match s {
        CrawlState::FirstPage { tries } => tries as int,
        CrawlState::Page { base_tries, tries, .. } => tries - base_tries + 1,
        CrawlState::Done => 0,
    }
}

/// Within the first page, the retries left.
pub open spec fn first_page_measure(tries: u8) -> int {
    5 - tries
}

/// Within the later pages, the pages and retries left.
pub open spec fn page_measure(page: u32, last_page: u32, tries: u8) -> int {
    (last_page - page) * 16 + (10 - tries)
}

/// After page `page` of `last_page`: the next page, or the end.
pub open spec fn after_page(page: u32, last_page: u32, base_tries: u8) -> (CrawlState, CrawlAction) {
    if page < last_page {
        (
            CrawlState::Page { page: (page + 1) as u32, last_page, base_tries, tries: base_tries },
            CrawlAction::Fetch { page: (page + 1) as u32, pause_seconds: PAUSE_SECONDS },
        )
    } else {
        (CrawlState::Done, CrawlAction::Stop)
    }
}

/// The start of a crawl: the first page is asked for at once.
pub fn crawl_start() -> (r: (CrawlState, CrawlAction))
    ensures
        r == (CrawlState::FirstPage { tries: 1 }, CrawlAction::Fetch { page: 1, pause_seconds: 0 }),
        crawl_state_ok(r.0),
{
    (CrawlState::FirstPage { tries: 1 }, CrawlAction::Fetch { page: 1, pause_seconds: 0 })
}

fn after_page_exec(page: u32, last_page: u32, base_tries: u8) -> (r: (CrawlState, CrawlAction))
    ensures
        r == after_page(page, last_page, base_tries),
        page < last_page ==> r.0 == (CrawlState::Page {
            page: (page + 1) as u32,
            last_page,
            base_tries,
            tries: base_tries,
        }) && r.1 == (CrawlAction::Fetch { page: (page + 1) as u32, pause_seconds: 2 }),
        page >= last_page ==> r.0 == CrawlState::Done && r.1 == CrawlAction::Stop,
{
    if page < last_page {
        (
            CrawlState::Page { page: page + 1, last_page, base_tries, tries: base_tries },
            CrawlAction::Fetch { page: page + 1, pause_seconds: PAUSE_SECONDS },
        )
    } else {
        (CrawlState::Done, CrawlAction::Stop)
    }
}

/// The decision after a fetch (the table that `crawl_step` follows; see its
/// comment).
pub open spec fn crawl_transition(state: CrawlState, outcome: FetchOutcome) -> (CrawlState, CrawlStep) {
    match (state, outcome) {
        (CrawlState::FirstPage { tries }, FetchOutcome::Fetched { page_count }) => {
            if page_count >= 2 {
                (
                    CrawlState::Page { page: 2, last_page: page_count, base_tries: tries, tries },
                    CrawlStep {
                        save_page: true,
                        next: CrawlAction::Fetch { page: 2, pause_seconds: PAUSE_SECONDS },
                    },
                )
            } else {
                (CrawlState::Done, CrawlStep { save_page: true, next: CrawlAction::Stop })
            }
        },
        (CrawlState::FirstPage { tries }, FetchOutcome::Failed) => {
            if tries < FIRST_PAGE_ATTEMPTS {
                (
                    CrawlState::FirstPage { tries: (tries + 1) as u8 },
                    CrawlStep {
                        save_page: false,
                        next: CrawlAction::Fetch { page: 1, pause_seconds: PAUSE_SECONDS },
                    },
                )
            } else {
                (CrawlState::Done, CrawlStep { save_page: false, next: CrawlAction::Stop })
            }
        },
        (CrawlState::Page { page, last_page, base_tries, .. }, FetchOutcome::Fetched { .. }) => {
            let (s, a) = after_page(page, last_page, base_tries);
            (s, CrawlStep { save_page: true, next: a })
        },
        (CrawlState::Page { page, last_page, base_tries, tries }, FetchOutcome::Failed) => {
            if tries < PAGE_ATTEMPT_LIMIT {
                (
                    CrawlState::Page { page, last_page, base_tries, tries: (tries + 1) as u8 },
                    CrawlStep {
                        save_page: false,
                        next: CrawlAction::Fetch { page, pause_seconds: PAUSE_SECONDS },
                    },
                )
            } else {
                let (s, a) = after_page(page, last_page, base_tries);
                (s, CrawlStep { save_page: false, next: a })
            }
        },
        (CrawlState::Done, _) => (CrawlState::Done, CrawlStep { save_page: false, next: CrawlAction::Stop }),
    }
}

/// The decision after a fetch.
///
/// A fetched page is stored. After the first page, pages 2 to `page_count`
/// follow. A failed first page is asked for again while fewer than five
/// attempts were made; a failed later page while its counter is below ten,
/// else the crawl moves on to the next page. Every step either ends the
/// crawl, moves from the first page to the later ones, or lowers the count of
/// what is left: the crawl ends.
pub fn crawl_step(state: CrawlState, outcome: FetchOutcome) -> (r: (CrawlState, CrawlStep))
    requires
        crawl_state_ok(state),
        state matches CrawlState::FirstPage { .. } ==> outcome matches FetchOutcome::Fetched {
            page_count,
        } ==> page_count < u32::MAX,
    ensures
        r == crawl_transition(state, outcome),
        crawl_state_ok(r.0),
        r.1.save_page == (outcome is Fetched && !(state is Done)),
        state matches CrawlState::Page { page, last_page, base_tries, .. } ==> outcome is Fetched
            ==> page < last_page ==> r.0 == (CrawlState::Page {
            page: (page + 1) as u32,
            last_page,
            base_tries,
            tries: base_tries,
        }) && r.1.next == (CrawlAction::Fetch { page: (page + 1) as u32, pause_seconds: 2 }),
        match (state, outcome) {
            (CrawlState::FirstPage { tries }, FetchOutcome::Fetched { page_count }) => {
                if page_count >= 2 {
                    r.0 == CrawlState::Page { page: 2, last_page: page_count, base_tries: tries, tries }
                        && r.1.next == CrawlAction::Fetch { page: 2, pause_seconds: PAUSE_SECONDS }
                } else {
                    r.0 == CrawlState::Done && r.1.next == CrawlAction::Stop
                }
            },
            (CrawlState::FirstPage { tries }, FetchOutcome::Failed) => {
                if tries < FIRST_PAGE_ATTEMPTS {
                    r.0 == CrawlState::FirstPage { tries: (tries + 1) as u8 } && r.1.next
                        == CrawlAction::Fetch { page: 1, pause_seconds: PAUSE_SECONDS }
                } else {
                    r.0 == CrawlState::Done && r.1.next == CrawlAction::Stop
                }
            },
            (CrawlState::Page { page, last_page, base_tries, .. }, FetchOutcome::Fetched { .. }) => (
            r.0, r.1.next) == after_page(page, last_page, base_tries),
            (CrawlState::Page { page, last_page, base_tries, tries }, FetchOutcome::Failed) => {
                if tries < PAGE_ATTEMPT_LIMIT {
                    r.0 == CrawlState::Page { page, last_page, base_tries, tries: (tries + 1) as u8 }
                        && r.1.next == CrawlAction::Fetch { page, pause_seconds: PAUSE_SECONDS }
                } else {
                    (r.0, r.1.next) == after_page(page, last_page, base_tries)
                }
            },
            (CrawlState::Done, _) => r.0 == CrawlState::Done && r.1.next == CrawlAction::Stop,
        },
        match (state, r.0) {
            (CrawlState::FirstPage { tries }, CrawlState::FirstPage { tries: t2 }) => first_page_measure(
                t2,
            ) < first_page_measure(tries),
            (CrawlState::Page { page, last_page, tries, .. }, CrawlState::Page {
                page: p2,
                last_page: l2,
                tries: t2,
                ..
            }) => l2 == last_page && page_measure(p2, l2, t2) < page_measure(page, last_page, tries),
            (CrawlState::Page { .. }, CrawlState::FirstPage { .. }) => false,
            (CrawlState::Done, s2) => s2 is Done,
            _ => true,
        },
{
    match (state, outcome) {
        (CrawlState::FirstPage { tries }, FetchOutcome::Fetched { page_count }) => {
            if page_count >= 2 {
                (
                    CrawlState::Page { page: 2, last_page: page_count, base_tries: tries, tries },
                    CrawlStep {
                        save_page: true,
                        next: CrawlAction::Fetch { page: 2, pause_seconds: PAUSE_SECONDS },
                    },
                )
            } else {
                (CrawlState::Done, CrawlStep { save_page: true, next: CrawlAction::Stop })
            }
        },
        (CrawlState::FirstPage { tries }, FetchOutcome::Failed) => {
            if tries < FIRST_PAGE_ATTEMPTS {
                (
                    CrawlState::FirstPage { tries: tries + 1 },
                    CrawlStep {
                        save_page: false,
                        next: CrawlAction::Fetch { page: 1, pause_seconds: PAUSE_SECONDS },
                    },
                )
            } else {
                (CrawlState::Done, CrawlStep { save_page: false, next: CrawlAction::Stop })
            }
        },
        (CrawlState::Page { page, last_page, base_tries, .. }, FetchOutcome::Fetched { .. }) => {
            let (s, a) = after_page_exec(page, last_page, base_tries);
            (s, CrawlStep { save_page: true, next: a })
        },
        (CrawlState::Page { page, last_page, base_tries, tries }, FetchOutcome::Failed) => {
            if tries < PAGE_ATTEMPT_LIMIT {
                (
                    CrawlState::Page { page, last_page, base_tries, tries: tries + 1 },
                    CrawlStep {
                        save_page: false,
                        next: CrawlAction::Fetch { page, pause_seconds: PAUSE_SECONDS },
                    },
                )
            } else {
                let (s, a) = after_page_exec(page, last_page, base_tries);
                (s, CrawlStep { save_page: false, next: a })
            }
        },
        (CrawlState::Done, _) => (CrawlState::Done, CrawlStep { save_page: false, next: CrawlAction::Stop }),
    }
}

/// A page is never asked for more than ten times, the first page never more
/// than five times.
pub proof fn lemma_attempts_bounded(s: CrawlState)
    requires
        crawl_state_ok(s),
    ensures
        attempts(s) <= 10,
        s is FirstPage ==> attempts(s) <= 5,
{
}

/// How far a crawl in which every fetch succeeds is from its end, when the
/// first page announces `n` pages.
pub open spec fn run_measure(s: CrawlState, n: u32) -> int {
    match s {
        CrawlState::FirstPage { .. } => n + 2,
        CrawlState::Page { page, last_page, .. } => if page < last_page {
            last_page - page + 1
        } else {
            1
        },
        CrawlState::Done => 0,
    }
}

/// The pages that a crawl asks for from state `s` on, when every fetch
/// succeeds and the first page announces `n` pages.
pub open spec fn pages_fetched(s: CrawlState, n: u32) -> Seq<u32>
    decreases run_measure(s, n),
{
    if s is Done {
        Seq::empty()
    } else {
        let (s2, step) = crawl_transition(s, FetchOutcome::Fetched { page_count: n });
        if run_measure(s2, n) < run_measure(s, n) {
            match step.next {
                CrawlAction::Fetch { page, .. } => seq![page] + pages_fetched(s2, n),
                CrawlAction::Stop => Seq::empty(),
            }
        } else {
            Seq::empty()
        }
    }
}

/// From page `page` of `last_page` on, a crawl without failures asks for
/// each later page once, in order.
pub proof fn lemma_pages_after(page: u32, last_page: u32, base_tries: u8, tries: u8, n: u32)
    requires
        2 <= page <= last_page,
    ensures
        pages_fetched(CrawlState::Page { page, last_page, base_tries, tries }, n) == Seq::new(
            (last_page - page) as nat,
            |i: int| (page + 1 + i) as u32,
        ),
    decreases last_page - page,
{
    let s = CrawlState::Page { page, last_page, base_tries, tries };
    let want = Seq::new((last_page - page) as nat, |i: int| (page + 1 + i) as u32);
    if page < last_page {
        let next = CrawlState::Page { page: (page + 1) as u32, last_page, base_tries, tries: base_tries };
        lemma_pages_after((page + 1) as u32, last_page, base_tries, base_tries, n);
        assert(pages_fetched(s, n) == seq![(page + 1) as u32] + pages_fetched(next, n));
        assert(pages_fetched(s, n) =~= want);
    } else {
        assert(pages_fetched(s, n) =~= want);
    }
}

/// A crawl in which no fetch fails asks for exactly the pages 1 to `n`,
/// each once and in order, when the first page announces `n` pages.
pub proof fn lemma_crawl_fetches_every_page(n: u32)
    requires
        1 <= n < u32::MAX,
    ensures
        seq![1u32] + pages_fetched(CrawlState::FirstPage { tries: 1 }, n) == Seq::new(
            n as nat,
            |i: int| (i + 1) as u32,
        ),
{
    let first = CrawlState::FirstPage { tries: 1 };
    let want = Seq::new(n as nat, |i: int| (i + 1) as u32);
    if n >= 2 {
        let second = CrawlState::Page { page: 2, last_page: n, base_tries: 1, tries: 1 };
        lemma_pages_after(2, n, 1, 1, n);
        assert(pages_fetched(first, n) == seq![2u32] + pages_fetched(second, n));
        assert(seq![1u32] + pages_fetched(first, n) =~= want);
    } else {
        assert(pages_fetched(first, n) == Seq::<u32>::empty());
        assert(seq![1u32] + pages_fetched(first, n) =~= want);
    }
}

/// The request for one page of the crawled leaderboard: the global unranked
/// leaderboard of games between players, of the given team size.
pub fn leaderboard_request(page: u32, team_size: TeamSize) -> (r: AgeOfEmpiresLeaderboardRequest)
    ensures
        r.page == page,
        r.region == Region::Global,
        r.team_size == Some(team_size),
        r.versus == Versus::Players,
        r.match_type == crate::request::MatchType::Unranked,
        r.count == 100,
        r.search_player@ == Seq::<char>::empty(),
{
    AgeOfEmpiresLeaderboardRequest::new(page, Region::Global, Some(team_size), Versus::Players)
}

/// Accepts a reply only with the status 200; any other status is the error.
pub fn check_status(status: u16) -> (r: Result<(), u16>)
    ensures
        r is Ok <==> status == STATUS_OK,
        r is Err ==> r == Err::<(), u16>(status),
{
    if status == STATUS_OK {
        Ok(())
    } else {
        Err(status)
    }
}

/// A parsed page remembers the request that fetched it.
pub fn attach_request(lb: Leaderboard, request: AgeOfEmpiresLeaderboardRequest) -> (r: Leaderboard)
    ensures
        r.request == Some(request),
        r.count == lb.count,
        r.items == lb.items,
{
    let mut lb = lb;
    lb.request = Some(request);
    lb
}

} // verus!
