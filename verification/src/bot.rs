//! Everything the link, the calls and the game share.
use vstd::prelude::*;

use crate::calls::{next, Calls, Happening};
use crate::config::Config;
use crate::feeds::{Run, RunView};
use crate::game::{described, Game, Seen};
use crate::json::{a_field_reads_back, an_empty_object_has_nothing, Doc, Json};
use crate::table::Table;

verus! {

pub const KIND: &'static str = "azalea";

pub const MINECRAFT_VERSION: &'static str = "26.1.2";

/// Everything the link, the calls and the game share. The whole bot runs on one thread, so nothing
/// here is ever touched from two places at once.
pub struct Bot {
    pub config: Config,
    pub is_linked: bool,
    pub calls: Calls,
    /// The feeds the server asked for, each with whether it is wanted.
    pub feeds: Json,
    pub seq: u64,
    /// The folded feeds' open runs, which outlive a connection only long enough to be closed.
    pub runs: Table<String, Run>,
}

impl Bot {
    /// The run each folded feed has open, by feed.
    pub open spec fn showing(&self) -> Map<Seq<char>, RunView> {
        Map::new(|k: Seq<char>| self.runs@.dom().contains(k), |k: Seq<char>| self.runs@[k]@)
    }

    /// Whether the server asked for a feed.
    pub open spec fn wanted(&self, feed: Seq<char>) -> bool {
        self.feeds@.bool_at(feed) == Some(true)
    }

    pub fn new(config: Config) -> (r: Bot)
        ensures
            r.config == config,
            !r.is_linked,
            r.calls.inflight@ == Map::<Seq<char>, bool>::empty(),
            r.feeds@ == Doc::object(),
            r.seq == 0,
            r.showing() == Map::<Seq<char>, RunView>::empty(),
    {
        let r = Bot {
            config,
            is_linked: false,
            calls: Calls::new(),
            feeds: Json::object(),
            seq: 0,
            runs: Table::new(),
        };
        proof {
            assert(r.showing() =~= Map::empty());
        }
        r
    }

    /// The link is gone. Calls in flight cannot be answered on a link that no longer exists, so
    /// they are dropped rather than left waiting for one that will not come back with their ids.
    pub fn detach(&mut self)
        ensures
            final(self).is_linked == false,
            final(self).calls.inflight@ == next(old(self).calls.inflight@, Happening::Drop),
            final(self).config == old(self).config,
            final(self).feeds == old(self).feeds,
            final(self).seq == old(self).seq,
            final(self).runs == old(self).runs,
    {
        self.is_linked = false;
        self.calls.clear();
    }

    /// The server took our hello, and asks for these feeds.
    pub fn accepted(&mut self, feeds: Json)
        ensures
            final(self).is_linked,
            final(self).feeds == feeds,
            final(self).config == old(self).config,
            final(self).calls == old(self).calls,
            final(self).seq == old(self).seq,
            final(self).runs == old(self).runs,
    {
        self.feeds = feeds;
        self.is_linked = true;
    }

    /// Whether the server accepted our hello. What /readyz answers, because the operator's LINK
    /// column is that probe and nothing else outside the protocol knows.
    pub fn linked(&self) -> (r: bool)
        ensures
            r == self.is_linked,
    {
        self.is_linked
    }

    pub fn wants(&self, feed: &str) -> (r: bool)
        ensures
            r == self.wanted(feed@),
    {
        match self.feeds.bool_at(feed) {
            Some(wanted) => wanted,
            None => false,
        }
    }

    /// The next sequence number, each one more than the last.
    pub fn next_seq(&mut self) -> (r: u64)
        requires
            old(self).seq < u64::MAX,
        ensures
            r == old(self).seq + 1,
            final(self).seq == r,
            final(self).is_linked == old(self).is_linked,
            final(self).config == old(self).config,
            final(self).calls == old(self).calls,
            final(self).feeds == old(self).feeds,
            final(self).runs == old(self).runs,
    {
        self.seq = self.seq + 1;
        self.seq
    }

    pub fn busy(&self) -> (n: usize)
        ensures
            n == self.calls.inflight.list().len(),
    {
        self.calls.busy()
    }
}

/// A status as the link carries it: what the bot knows at the time, with the fields that describe a
/// world only while it is in one.
pub open spec fn status_of(
    state: Seq<char>,
    reason: Option<Seq<char>>,
    ts: u64,
    game: Option<Doc>,
) -> Doc {
    let base = match game {
        Some(described) => described,
        None => status_base(state, ts),
    };
    match reason {
        Some(reason) => base.with("reason"@, Doc::Text(reason)),
        None => base,
    }
}

pub open spec fn status_base(state: Seq<char>, ts: u64) -> Doc {
    Doc::object().with("t"@, Doc::Text("status"@)).with("state"@, Doc::Text(state)).with(
        "ts"@,
        Doc::number(ts as int),
    ).with("mcVersion"@, Doc::Text(MINECRAFT_VERSION@))
}

/// A status at a time, with the game the bot is in and what it sees of the world.
pub fn status(state: &str, reason: Option<&str>, ts: u64, game: Option<(&Game, Option<Seen>)>) -> (r:
    Json)
    ensures
        r@ == status_of(
            state@,
            match reason {
                Some(reason) => Some(reason@),
                None => None,
            },
            ts,
            match game {
                Some((game, seen)) => Some(described(status_base(state@, ts), *game, seen)),
                None => None,
            },
        ),
{
    let base = Json::object().with("t", Json::text("status")).with("state", Json::text(state)).with(
        "ts",
        Json::count(ts),
    ).with("mcVersion", Json::text(MINECRAFT_VERSION));
    let base = match game {
        Some((game, seen)) => game.describe(base, seen),
        None => base,
    };
    match reason {
        Some(reason) => base.with("reason", Json::text(reason)),
        None => base,
    }
}

/// A line for the server's log.
pub fn log(level: &str, message: &str) -> (r: Json)
    ensures
        r@ == Doc::object().with("t"@, Doc::Text("log"@)).with("level"@, Doc::Text(level@)).with(
            "message"@,
            Doc::Text(message@),
        ),
{
    Json::object().with("t", Json::text("log")).with("level", Json::text(level)).with(
        "message",
        Json::text(message),
    )
}

/// What a status says: the state and the time, and the reason where there is one.
pub proof fn a_status_says_its_state(state: Seq<char>, reason: Option<Seq<char>>, ts: u64)
    ensures
        ({
            let said = status_of(state, reason, ts, None);
            &&& said.text_at("t"@) == Some("status"@)
            &&& said.text_at("state"@) == Some(state)
            &&& said.at("ts"@) == Some(Doc::number(ts as int))
            &&& reason matches Some(words) ==> said.text_at("reason"@) == Some(words)
            &&& reason is None ==> said.at("reason"@) is None
        }),
{
    broadcast use {a_field_reads_back, an_empty_object_has_nothing};
    reveal_strlit("t");
    reveal_strlit("state");
    reveal_strlit("ts");
    reveal_strlit("mcVersion");
    reveal_strlit("reason");
    assert("t"@.len() == 1);
    assert("state"@.len() == 5);
    assert("ts"@.len() == 2);
    assert("mcVersion"@.len() == 9);
    assert("reason"@.len() == 6);
}

/// A feed is wanted where the server asked for it, and nowhere else.
pub proof fn a_feed_is_wanted_where_it_was_asked_for(bot: Bot, feed: Seq<char>)
    ensures
        bot.feeds@.bool_at(feed) == Some(true) ==> bot.wanted(feed),
        bot.feeds@.bool_at(feed) == Some(false) ==> !bot.wanted(feed),
        bot.feeds@.at(feed) is None ==> !bot.wanted(feed),
{
}

} // verus!
