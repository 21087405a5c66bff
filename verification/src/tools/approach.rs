//! Getting close enough to touch something, asked once a tick.
use vstd::prelude::*;

use crate::calls::{Failure, FailureView};
use crate::words::cat6;

verus! {

/// Ticks before a route that ended short is searched again. A search takes at least a second.
pub const REPLAN_TICKS: u32 = 20;

/// This many ticks of hardly moving is being stuck.
pub const PATIENCE_TICKS: u32 = 40;

/// The walking is the client's pathfinder, told not to dig: a bot that tunnelled to a chest would
/// change the world a check is about.
#[derive(Clone, Copy, Debug, PartialEq, Eq, Structural)]
pub struct Approach {
    /// The pathfinder was sent somewhere.
    pub walking: bool,
    pub since_sent: u32,
    pub ended_short: bool,
    /// A place was noted to measure from.
    pub noted: bool,
    pub stuck_ticks: u32,
}

/// What the first half of a step comes to.
#[derive(Clone, Copy, Debug, PartialEq, Eq, Structural)]
pub enum Bearing {
    /// Close enough, with the pathfinder to be stopped where it was sent.
    Reached { stop: bool },
    /// Not there: whether the pathfinder is to be sent, again or for the first time.
    Onward { send: bool },
}

/// What the second half of a step comes to.
pub enum Headway {
    Onward,
    /// The place the bot is at is to be noted.
    Note,
    /// Stuck, with the pathfinder to be stopped where it was sent.
    Stuck { stop: bool, failure: Failure },
}

/// How the second half of a step goes.
#[derive(Clone, Copy, Debug, PartialEq, Eq, Structural)]
pub enum Way {
    Onward,
    Note,
    Stuck,
}

impl Headway {
    pub open spec fn way(self) -> Way {
        match self {
            Headway::Onward => Way::Onward,
            Headway::Note => Way::Note,
            Headway::Stuck { .. } => Way::Stuck,
        }
    }
}

impl Approach {
    pub fn new() -> (r: Approach)
        ensures
            r == (Approach {
                walking: false,
                since_sent: 0,
                ended_short: false,
                noted: false,
                stuck_ticks: 0,
            }),
    {
        Approach { walking: false, since_sent: 0, ended_short: false, noted: false, stuck_ticks: 0 }
    }

    /// Whether the pathfinder is to be sent: it never was, the target moved away from where it was
    /// sent, or it came to an end a while ago.
    pub open spec fn sends(self, idle: bool, strayed: bool) -> bool {
        (!self.walking || strayed) || (idle && self.since_sent + 1 >= REPLAN_TICKS)
    }

    /// A step, with whether the bot is within reach, whether the pathfinder is idle, and whether the
    /// target has moved away from where it was sent.
    pub fn reached(&mut self, within: bool, idle: bool, strayed: bool) -> (r: Bearing)
        requires
            old(self).since_sent < u32::MAX,
        ensures
            within ==> *final(self) == (Approach { walking: false, ..*old(self) }) && r
                == (Bearing::Reached { stop: old(self).walking }),
            !within && old(self).sends(idle, strayed) ==> *final(self) == (Approach {
                walking: true,
                since_sent: 0,
                ended_short: old(self).ended_short || !(!old(self).walking || strayed),
                ..*old(self)
            }) && r == (Bearing::Onward { send: true }),
            !within && !old(self).sends(idle, strayed) ==> *final(self) == (Approach {
                since_sent: (old(self).since_sent + 1) as u32,
                ..*old(self)
            }) && r == (Bearing::Onward { send: false }),
    {
        if within {
            let stop: bool = self.walking;
            self.walking = false;
            return Bearing::Reached { stop };
        }
        self.since_sent = self.since_sent + 1;
        let moved: bool = !self.walking || strayed;
        if moved || (idle && self.since_sent >= REPLAN_TICKS) {
            self.ended_short = self.ended_short || !moved;
            self.walking = true;
            self.since_sent = 0;
            return Bearing::Onward { send: true };
        }
        Bearing::Onward { send: false }
    }

    /// What is said of something that was not reached.
    pub open spec fn complaint(self, what: Seq<char>, distance: Seq<char>, idle: bool) -> FailureView {
        FailureView::refusal(
            "UNREACHABLE"@,
            "could not get within reach of "@ + what + "; it stopped "@ + distance
                + " blocks away: "@ + (if self.ended_short || idle {
                "no route to it over the blocks the client can see"@
            } else {
                "the route it was following stopped getting closer"@
            }) + "."@,
        )
    }

    /// The rest of a step: where the approach stands after it, and how it goes.
    pub open spec fn made_way(self, searching: bool, progressed: bool) -> (Approach, Way) {
        if searching {
            (self, Way::Onward)
        } else if !self.noted || progressed {
            (Approach { noted: true, stuck_ticks: 0, ..self }, Way::Note)
        } else if self.stuck_ticks < PATIENCE_TICKS {
            (Approach { stuck_ticks: (self.stuck_ticks + 1) as u32, ..self }, Way::Onward)
        } else {
            (
                Approach { walking: false, stuck_ticks: (self.stuck_ticks + 1) as u32, ..self },
                Way::Stuck,
            )
        }
    }

    /// The rest of a step, with whether a search is going on, whether the bot is further than a
    /// little way from where it was last noted, whether the pathfinder was idle, what is walked to
    /// and how far away it is.
    ///
    /// A search is not being stuck: the bot stands still for it by design.
    pub fn step(&mut self, searching: bool, progressed: bool, idle: bool, what: &str, distance: &str) -> (r:
        Headway)
        requires
            old(self).stuck_ticks < u32::MAX,
        ensures
            (*final(self), r.way()) == old(self).made_way(searching, progressed),
            r matches Headway::Stuck { stop, failure } ==> stop == old(self).walking && failure@
                == old(self).complaint(what@, distance@, idle),
    {
        if searching {
            return Headway::Onward;
        }
        if !self.noted || progressed {
            self.noted = true;
            self.stuck_ticks = 0;
            return Headway::Note;
        }
        self.stuck_ticks = self.stuck_ticks + 1;
        if self.stuck_ticks <= PATIENCE_TICKS {
            return Headway::Onward;
        }
        let stop: bool = self.walking;
        self.walking = false;
        let trouble: &str = if self.ended_short || idle {
            "no route to it over the blocks the client can see"
        } else {
            "the route it was following stopped getting closer"
        };
        let failure = Failure::refused(
            "UNREACHABLE",
            cat6(
                "could not get within reach of ",
                what,
                "; it stopped ",
                distance,
                " blocks away: ",
                crate::words::cat2(trouble, ".").as_str(),
            ),
        );
        proof {
            let a = "could not get within reach of "@ + what@ + "; it stopped "@ + distance@
                + " blocks away: "@;
            assert(a + (trouble@ + "."@) =~= a + trouble@ + "."@);
        }
        Headway::Stuck { stop, failure }
    }
}

/// An approach after so many steps in a row that brought it no further.
pub open spec fn halted(approach: Approach, n: nat) -> Approach
    decreases n,
{
    if n == 0 {
        approach
    } else {
        halted(approach, (n - 1) as nat).made_way(false, false).0
    }
}

/// Something that is not got any nearer to is given up on once patience is over, and not before.
pub proof fn standing_still_ends_an_approach(approach: Approach, n: nat)
    requires
        approach.noted,
        approach.stuck_ticks == 0,
        n <= PATIENCE_TICKS,
    ensures
        halted(approach, n).stuck_ticks == n,
        halted(approach, n).noted,
        halted(approach, n).made_way(false, false).1 == if n < PATIENCE_TICKS {
            Way::Onward
        } else {
            Way::Stuck
        },
    decreases n,
{
    if n > 0 {
        standing_still_ends_an_approach(approach, (n - 1) as nat);
    }
}

/// The pathfinder is sent where it is not walking, where the target strayed, and where it stands idle
/// for a second.
pub proof fn the_pathfinder_is_sent_again(approach: Approach, idle: bool, strayed: bool)
    ensures
        !approach.walking ==> approach.sends(idle, strayed),
        strayed ==> approach.sends(idle, strayed),
        approach.walking && !strayed && !idle ==> !approach.sends(idle, strayed),
        approach.walking && !strayed && idle ==> (approach.sends(idle, strayed)
            <==> approach.since_sent >= 19),
        REPLAN_TICKS == 20,
        PATIENCE_TICKS == 40,
{
}

/// What is said of something that was not reached: how far away the bot stopped, and whether there was no
/// route or the route came no closer.
pub proof fn what_was_not_reached_is_told(approach: Approach, what: Seq<char>, distance: Seq<char>, idle: bool)
    ensures
        approach.complaint(what, distance, idle).code == "UNREACHABLE"@,
        approach.ended_short || idle ==> approach.complaint(what, distance, idle).message
            == "could not get within reach of "@ + what + "; it stopped "@ + distance
            + " blocks away: "@ + "no route to it over the blocks the client can see"@ + "."@,
        !approach.ended_short && !idle ==> approach.complaint(what, distance, idle).message
            == "could not get within reach of "@ + what + "; it stopped "@ + distance
            + " blocks away: "@ + "the route it was following stopped getting closer"@ + "."@,
{
}

/// A search is not being stuck, a step further starts the patience over, and the first look is noted.
pub proof fn getting_further_starts_the_patience_over(approach: Approach, progressed: bool)
    requires
        approach.stuck_ticks < u32::MAX,
    ensures
        approach.made_way(true, progressed) == (approach, Way::Onward),
        !approach.noted || progressed ==> approach.made_way(false, progressed).1 == Way::Note
            && approach.made_way(false, progressed).0.stuck_ticks == 0 && approach.made_way(
            false,
            progressed,
        ).0.noted,
        approach.noted && !progressed ==> approach.made_way(false, progressed).0.stuck_ticks
            == approach.stuck_ticks + 1 && (approach.made_way(false, progressed).1 == Way::Stuck
            <==> approach.stuck_ticks >= 40),
{
}

} // verus!
