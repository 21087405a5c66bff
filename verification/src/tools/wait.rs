//! Waiting for ticks.
use vstd::prelude::*;

use crate::calls::{Answer, AnswerView, Failure, FailureView};
use crate::json::{Doc, Json};
use crate::words::{cat3, dec, decimal};

verus! {

/// How many ticks are asked for, where it is at least one.
pub open spec fn asked_of(args: Doc) -> Option<u64> {
    match args.nat_at("ticks"@) {
        Some(ticks) => if ticks >= 1 {
            Some(ticks)
        } else {
            None
        },
        None => None,
    }
}

pub fn asked(args: &Json) -> (r: Result<u64, Failure>)
    ensures
        match r {
            Ok(ticks) => asked_of(args@) == Some(ticks) && ticks >= 1,
            Err(failure) => asked_of(args@) is None && failure@ == FailureView::misuse(
                "ticks must be at least 1"@,
            ),
        },
{
    match args.nat_at("ticks") {
        Some(ticks) => if ticks >= 1 {
            Ok(ticks)
        } else {
            Err(Failure::bad_args("ticks must be at least 1".to_owned()))
        },
        None => Err(Failure::bad_args("ticks must be at least 1".to_owned())),
    }
}

/// A wait for ticks: the server's as the client runs them, which is what "wait for the plugin to
/// react" means.
#[derive(Clone, Copy, Debug, PartialEq, Eq, Structural)]
pub struct Wait {
    pub ticks: u64,
    /// The tick it is over on.
    pub target: u64,
}

/// What comes of a look at the ticks.
pub enum Waiting {
    Over(Answer),
    /// The connection ended.
    Left(Failure),
    Tick,
}

impl Wait {
    pub fn new(now: u64, ticks: u64) -> (r: Wait)
        requires
            now + ticks <= u64::MAX,
        ensures
            r == (Wait { ticks, target: (now + ticks) as u64 }),
    {
        Wait { ticks, target: now + ticks }
    }

    /// A proxy moving the bot between servers stops the ticks until it arrives, and the wait spans the
    /// move; a connection that ends stops them for good, and the wait says the bot left rather than
    /// sitting out the call's deadline.
    pub fn look(&self, now: u64, connected: bool) -> (r: Waiting)
        ensures
            now >= self.target ==> (r matches Waiting::Over(answer) && answer@ == AnswerView::plain(
                "Waited "@ + dec(self.ticks as int) + " tick(s)."@,
            )),
            now < self.target && !connected ==> (r matches Waiting::Left(failure) && failure@
                == FailureView::outside()),
            now < self.target && connected ==> r is Tick,
    {
        if now >= self.target {
            return Waiting::Over(
                Answer::text(cat3("Waited ", decimal(self.ticks).as_str(), " tick(s).")),
            );
        }
        if !connected {
            return Waiting::Left(Failure::not_in_game());
        }
        Waiting::Tick
    }
}

/// A wait is as many ticks as are asked for, and at least one.
pub proof fn a_wait_is_at_least_one_tick(args: Doc)
    ensures
        args.nat_at("ticks"@) matches Some(ticks) ==> (ticks >= 1 ==> asked_of(args) == Some(ticks)) && (
        ticks == 0 ==> asked_of(args) is None),
        args.nat_at("ticks"@) is None ==> asked_of(args) is None,
{
}

} // verus!
