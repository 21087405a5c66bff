//! Walking to a place, and saying how far the bot got when it did not.
//!
//! The pathfinder and the distances are the client's. What is decided here is when a walk starts,
//! when it has arrived, and when standing still means being stuck.
use vstd::prelude::*;

use crate::calls::{Answer, AnswerView, Failure, FailureView};
use crate::json::{Json, Number};
use crate::place::BlockPos;
use crate::tools::args::{nat_or, nat_or_of, number, number_of, written, written_of};
use crate::words::{cat5, cat7, dec, decimal};

verus! {

/// Less than a little way in this many ticks of walking is not walking. Measured against the last
/// place the bot got to rather than the last tick, because a bot pressed against a wall still
/// twitches by a fraction of a block every tick and would never look stuck.
pub const PATIENCE_TICKS: u32 = 40;

#[derive(Clone, Copy, Debug, PartialEq, Eq, Structural)]
pub enum Stride {
    Arrived,
    Walking,
    Stuck,
}

/// How far a walk has come. It keeps the route it was given, because the refusal says how far along
/// it the bot got.
#[derive(Clone, Copy, Debug, PartialEq, Eq, Structural)]
pub struct Walk {
    pub started: bool,
    pub loaded: bool,
    /// The longest route the pathfinder has followed so far, and how much of it is left.
    pub route: usize,
    pub left: usize,
    /// A place was noted to measure from.
    pub noted: bool,
    pub still: u32,
}

/// The first half of a step: whether the bot is there, and whether the pathfinder is to be started
/// or stopped.
#[derive(Clone, Copy, Debug, PartialEq, Eq, Structural)]
pub enum Setting {
    Arrived { stop: bool },
    Onward { start: bool },
}

/// The second half of a step: how it goes, whether the place the bot is at is to be noted, and
/// whether the pathfinder is to be stopped.
#[derive(Clone, Copy, Debug, PartialEq, Eq, Structural)]
pub struct Going {
    pub stride: Stride,
    pub note: bool,
    pub stop: bool,
}

impl Walk {
    /// No more of a route is left than was followed.
    pub open spec fn valid(self) -> bool {
        self.left <= self.route
    }

    pub fn new() -> (r: Walk)
        ensures
            r.valid(),
            r == (Walk { started: false, loaded: true, route: 0, left: 0, noted: false, still: 0 }),
    {
        Walk { started: false, loaded: true, route: 0, left: 0, noted: false, still: 0 }
    }

    /// A step, with whether the bot is within range and whether the client has the chunks of the
    /// target and of the ground under it.
    ///
    /// A target outside the chunks the client has is not unreachable, it is unknown, and the
    /// pathfinder would set off towards it anyway over what it takes for solid ground.
    pub fn set_out(&mut self, within: bool, loaded: bool) -> (r: Setting)
        requires
            old(self).valid(),
        ensures
            final(self).valid(),
            within ==> *final(self) == (Walk { started: false, ..*old(self) }) && r
                == (Setting::Arrived { stop: old(self).started }),
            !within ==> *final(self) == (Walk {
                loaded,
                started: old(self).started || loaded,
                ..*old(self)
            }) && r == (Setting::Onward { start: loaded && !old(self).started }),
    {
        if within {
            let stop: bool = self.started;
            self.started = false;
            return Setting::Arrived { stop };
        }
        self.loaded = loaded;
        let start: bool = loaded && !self.started;
        if start {
            self.started = true;
        }
        Setting::Onward { start }
    }

    /// How much of a route was followed, once so much of it is left.
    pub open spec fn followed(self, left: usize) -> Walk {
        Walk {
            route: if left > self.left && left > self.route {
                left
            } else {
                self.route
            },
            left,
            ..self
        }
    }

    /// The rest of a step: where the walk stands after it, and how it goes.
    pub open spec fn stepped(self, left: usize, searching: bool, stayed: bool) -> (Walk, Going) {
        let walk = self.followed(left);
        if searching {
            (
                Walk { still: 0, ..walk },
                Going { stride: Stride::Walking, note: false, stop: false },
            )
        } else if !(self.noted && stayed) {
            (
                Walk { noted: true, still: 0, ..walk },
                Going { stride: Stride::Walking, note: true, stop: false },
            )
        } else if self.still < PATIENCE_TICKS {
            (
                Walk { still: (self.still + 1) as u32, ..walk },
                Going { stride: Stride::Walking, note: false, stop: false },
            )
        } else {
            (
                Walk { still: (self.still + 1) as u32, started: false, ..walk },
                Going { stride: Stride::Stuck, note: false, stop: self.started },
            )
        }
    }

    /// The rest of a step, with how much of the route is left, whether a search is going on, and
    /// whether the bot is about where it was last noted.
    ///
    /// A search takes up to seconds, and standing still through it is not being stuck.
    pub fn step(&mut self, left: usize, searching: bool, stayed: bool) -> (r: Going)
        requires
            old(self).valid(),
            old(self).still < u32::MAX,
        ensures
            final(self).valid(),
            (*final(self), r) == old(self).stepped(left, searching, stayed),
    {
        if left > self.left {
            if left > self.route {
                self.route = left;
            }
        }
        self.left = left;
        if searching {
            self.still = 0;
            return Going { stride: Stride::Walking, note: false, stop: false };
        }
        let mut note: bool = false;
        if self.noted && stayed {
            self.still = self.still + 1;
        } else {
            self.noted = true;
            self.still = 0;
            note = true;
        }
        if self.still > PATIENCE_TICKS {
            let stop: bool = self.started;
            self.started = false;
            return Going { stride: Stride::Stuck, note, stop };
        }
        Going { stride: Stride::Walking, note, stop: false }
    }

    /// Why the walk is not getting anywhere.
    pub open spec fn reason(self) -> Seq<char> {
        if !self.loaded {
            "the client could not search a route: the target or the ground under this bot is outside the chunks it has"@
        } else if self.route == 0 {
            "no route to it over the blocks the client can see"@
        } else {
            "followed a route of "@ + dec(self.route as int) + " block(s) and stopped at step "@
                + dec(self.route - self.left)
        }
    }

    /// Why the walk is not getting anywhere. "No route" and "the route ran out" send a caller to
    /// different places: the first is a world the client cannot see through, the second a way that
    /// exists and stops short.
    pub fn trouble(&self) -> (r: String)
        requires
            self.valid(),
        ensures
            r@ == self.reason(),
    {
        if !self.loaded {
            "the client could not search a route: the target or the ground under this bot is outside the chunks it has".to_owned()
        } else if self.route == 0 {
            "no route to it over the blocks the client can see".to_owned()
        } else {
            let mut out = crate::words::cat3(
                "followed a route of ",
                decimal(self.route as u64).as_str(),
                " block(s) and stopped at step ",
            );
            out.append(decimal((self.route - self.left) as u64).as_str());
            out
        }
    }
}

/// How near a walk is to come, as a call asks for it.
pub fn range(args: &Json) -> (r: Result<Number, Failure>)
    ensures
        match r {
            Ok(range) => number_of(args@, "range"@) == Some(range),
            Err(failure) => number_of(args@, "range"@) is None && failure@ == FailureView::misuse(
                "expected a number for range"@,
            ),
        },
{
    match number(args, "range") {
        Some(range) => Ok(range),
        None => Err(Failure::bad_args("expected a number for range".to_owned())),
    }
}

/// How long a walk may take, in milliseconds.
pub fn timeout(args: &Json) -> (r: u64)
    ensures
        r == nat_or_of(args@, "timeoutMs"@, 60_000),
{
    nat_or(args, "timeoutMs", 60_000)
}

/// Whether a walk is over without having arrived: it is stuck, or it has gone on for longer than it
/// may. A target the way cannot reach is reported as how far the bot got rather than waited out.
pub fn gives_up(stride: Stride, elapsed_nanos: u128, timeout_ms: u64) -> (r: bool)
    ensures
        r == match stride {
            Stride::Arrived => false,
            Stride::Stuck => true,
            Stride::Walking => elapsed_nanos > timeout_ms * 1_000_000,
        },
{
    match stride {
        Stride::Arrived => false,
        Stride::Stuck => true,
        Stride::Walking => elapsed_nanos > timeout_ms as u128 * 1_000_000,
    }
}

/// A walk after so many steps in a row that the bot stood still in.
pub open spec fn standing(walk: Walk, left: usize, n: nat) -> Walk
    decreases n,
{
    if n == 0 {
        walk
    } else {
        standing(walk, left, (n - 1) as nat).stepped(left, false, true).0
    }
}

/// A walk that stands still is stuck once its patience is over, and not before.
pub proof fn standing_still_ends_a_walk(walk: Walk, left: usize, n: nat)
    requires
        walk.valid(),
        walk.noted,
        walk.still == 0,
        n <= PATIENCE_TICKS,
    ensures
        standing(walk, left, n).still == n,
        standing(walk, left, n).noted,
        standing(walk, left, n).stepped(left, false, true).1.stride == if n < PATIENCE_TICKS {
            Stride::Walking
        } else {
            Stride::Stuck
        },
    decreases n,
{
    if n > 0 {
        standing_still_ends_a_walk(walk, left, (n - 1) as nat);
    }
}

/// What is answered once the bot is there, with the range as a sentence writes it.
pub fn moved(range: &str, target: BlockPos) -> (r: Answer)
    ensures
        r@ == AnswerView::plain(
            "Moved to within "@ + range@ + " block(s) of "@ + written_of(target) + "."@,
        ),
{
    Answer::text(
        cat5("Moved to within ", range, " block(s) of ", written(target).as_str(), "."),
    )
}

/// What is said of a target that was not reached, with how far away the bot stopped. A target the
/// way cannot reach is reported as how far the bot got rather than waited out: a caller who hears
/// "stopped 6 blocks short" can teleport, and one who hears nothing for a minute cannot.
pub fn not_reached(target: BlockPos, timeout_ms: u64, distance: &str, walk: &Walk) -> (r: Failure)
    requires
        walk.valid(),
    ensures
        r@ == FailureView::refusal(
            "UNREACHABLE"@,
            "could not reach "@ + written_of(target) + " within "@ + dec(timeout_ms as int)
                + "ms; it stopped "@ + distance@ + " blocks away: "@ + walk.reason()
                + ". Teleport with run-command when the way is not walkable."@,
        ),
{
    let mut message = cat7(
        "could not reach ",
        written(target).as_str(),
        " within ",
        decimal(timeout_ms).as_str(),
        "ms; it stopped ",
        distance,
        " blocks away: ",
    );
    message.append(walk.trouble().as_str());
    message.append(". Teleport with run-command when the way is not walkable.");
    Failure::refused("UNREACHABLE", message)
}

/// Why a walk does not get anywhere: unknown ground first, no route next, and otherwise how far along it
/// the bot got.
pub proof fn a_walk_says_how_far_it_got(walk: Walk)
    ensures
        walk.loaded && walk.route == 0 ==> walk.reason()
            == "no route to it over the blocks the client can see"@,
        walk.loaded && walk.route > 0 ==> walk.reason() == "followed a route of "@ + dec(
            walk.route as int,
        ) + " block(s) and stopped at step "@ + dec(walk.route - walk.left),
        !walk.loaded ==> walk.reason()
            == "the client could not search a route: the target or the ground under this bot is outside the chunks it has"@,
        PATIENCE_TICKS == 40,
{
}

/// A step keeps the longest route that was followed and what is left of it, and what ends it: a search or
/// a step further starts the patience over, and only running out of it is being stuck.
pub proof fn a_step_of_a_walk(walk: Walk, left: usize, searching: bool, stayed: bool)
    requires
        walk.still < u32::MAX,
    ensures
        ({
            let (next, going) = walk.stepped(left, searching, stayed);
            &&& next.left == left
            &&& left > walk.left && left > walk.route ==> next.route == left
            &&& left <= walk.left || left <= walk.route ==> next.route == walk.route
            &&& searching ==> next.still == 0 && going.stride == Stride::Walking && !going.note
            &&& !searching && !stayed ==> next.still == 0 && going.note && next.noted
            &&& !searching && walk.noted && stayed ==> next.still == walk.still + 1 && !going.note && (
            going.stride == Stride::Stuck <==> walk.still >= 40)
            &&& going.stop ==> going.stride == Stride::Stuck && walk.started
        }),
{
}

} // verus!
