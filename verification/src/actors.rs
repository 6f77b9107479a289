//! The crawler's actors and the messages they take.

use vstd::prelude::*;
use crate::crawler_request::TeamSize;
use crate::leaderboard::LeaderboardEntry;

verus! {

/// The actor that crawls leaderboards.
pub struct CrawlerActor {}

impl CrawlerActor {
    /// Does nothing; the actor is made by its struct literal.
    pub fn new() {
    }
}

/// Asks the crawler for a leaderboard of a team size.
pub struct AgeRequest(pub u8, pub TeamSize);

/// Hands one leaderboard entry to the database actor.
pub struct GetUser(pub LeaderboardEntry);

/// The actor that writes to the database.
pub struct DBActor {}

impl DBActor {
    /// Takes an entry and reports success; nothing is written yet.
    pub fn handle(&mut self, msg: GetUser) -> (r: Result<(), String>)
        ensures
            r == Ok::<(), String>(()),
    {
        Ok(())
    }
}

} // verus!
