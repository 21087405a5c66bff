//! The bot's own body: where it looks, how it stands, which way it is walked, and getting up again.
use vstd::prelude::*;

use crate::calls::{Answer, AnswerView, Failure, FailureView};
use crate::json::{Doc, Json};
use crate::place::BlockPos;
use crate::tools::args::{given, nat_or, nat_or_of, written, written_of};
use crate::words::{cat2, cat3, cat4, cat5, dec, decimal, same};

verus! {

/// How long a tick is, for a duration the caller gave in milliseconds.
pub const TICK_MS: u64 = 50;

/// The position the server sends lands after the respawn itself, and it is the one worth reporting.
pub const SETTLE_TICKS: u32 = 20;

/// What look-at answers.
pub fn looking_at(at: BlockPos) -> (r: Answer)
    ensures
        r@ == AnswerView::plain("Looking at "@ + written_of(at) + "."@),
{
    Answer::text(cat3("Looking at ", written(at).as_str(), "."))
}

/// What jump answers. Physics only jumps from the ground, which is also all a server would believe.
pub fn jumped() -> (r: Answer)
    ensures
        r@ == AnswerView::plain("Jumped."@),
{
    Answer::text("Jumped.".to_owned())
}

/// A part of a stance as it is asked for: a field left null is left alone.
pub open spec fn wanted_of(args: Doc, name: Seq<char>) -> Result<Option<bool>, FailureView> {
    match given(args, name) {
        Doc::Null => Ok(None),
        Doc::Bool(wanted) => Ok(Some(wanted)),
        _ => Err(FailureView::misuse("expected a boolean or null for "@ + name)),
    }
}

fn wanted(args: &Json, name: &str) -> (r: Result<Option<bool>, Failure>)
    ensures
        match r {
            Ok(wanted) => wanted_of(args@, name@) == Ok::<Option<bool>, FailureView>(wanted),
            Err(failure) => wanted_of(args@, name@) == Err::<Option<bool>, FailureView>(failure@),
        },
{
    match args.get(name) {
        None => Ok(None),
        Some(Json::Null) => Ok(None),
        Some(Json::Bool(wanted)) => Ok(Some(*wanted)),
        Some(_) => Err(Failure::bad_args(cat2("expected a boolean or null for ", name))),
    }
}

/// The sneak and the sprint a stance asks for.
pub open spec fn stance_of(args: Doc) -> Result<(Option<bool>, Option<bool>), FailureView> {
    match wanted_of(args, "sneak"@) {
        Err(failure) => Err(failure),
        Ok(sneak) => match wanted_of(args, "sprint"@) {
            Err(failure) => Err(failure),
            Ok(sprint) => Ok((sneak, sprint)),
        },
    }
}

/// The sneak and the sprint a stance asks for. A field left null is left alone: "start sneaking" must
/// not quietly stop a sprint that was already running. These are the keys held, which is what the
/// server is told every tick; whether the sprint has actually started is the game's to decide once
/// the bot moves.
pub fn stance(args: &Json) -> (r: Result<(Option<bool>, Option<bool>), Failure>)
    ensures
        match r {
            Ok(asked) => stance_of(args@) == Ok::<(Option<bool>, Option<bool>), FailureView>(asked),
            Err(failure) => stance_of(args@) == Err::<(Option<bool>, Option<bool>), FailureView>(
                failure@,
            ),
        },
{
    let sneak = match wanted(args, "sneak") {
        Ok(sneak) => sneak,
        Err(failure) => return Err(failure),
    };
    match wanted(args, "sprint") {
        Ok(sprint) => Ok((sneak, sprint)),
        Err(failure) => Err(failure),
    }
}

pub open spec fn yes_or_no(b: bool) -> Seq<char> {
    if b {
        "true"@
    } else {
        "false"@
    }
}

/// What set-stance answers: whether it sneaks, and whether it sprints as asked or, not asked, tries to
/// or does.
pub fn stands(sneaking: bool, sprint: Option<bool>, trying: bool, sprinting: bool) -> (r: Answer)
    ensures
        r@ == AnswerView::plain(
            "sneaking: "@ + yes_or_no(sneaking) + ", sprinting: "@ + yes_or_no(
                match sprint {
                    Some(asked) => asked,
                    None => trying || sprinting,
                },
            ),
        ),
{
    let sprints: bool = match sprint {
        Some(asked) => asked,
        None => trying || sprinting,
    };
    Answer::text(
        cat4(
            "sneaking: ",
            if sneaking {
                "true"
            } else {
                "false"
            },
            ", sprinting: ",
            if sprints {
                "true"
            } else {
                "false"
            },
        ),
    )
}

#[derive(Clone, Copy, Debug, PartialEq, Eq, Structural)]
pub enum WalkDirection {
    Forward,
    Backward,
    Left,
    Right,
}

pub open spec fn direction_of(name: Seq<char>) -> Option<WalkDirection> {
    if name == "forward"@ {
        Some(WalkDirection::Forward)
    } else if name == "back"@ {
        Some(WalkDirection::Backward)
    } else if name == "left"@ {
        Some(WalkDirection::Left)
    } else if name == "right"@ {
        Some(WalkDirection::Right)
    } else {
        None
    }
}

/// The key that walks a way.
pub fn direction(name: &str) -> (r: Result<WalkDirection, Failure>)
    ensures
        match r {
            Ok(key) => direction_of(name@) == Some(key),
            Err(failure) => direction_of(name@) is None && failure@ == FailureView::misuse(
                "unknown direction "@ + name@,
            ),
        },
{
    if same(name, "forward") {
        Ok(WalkDirection::Forward)
    } else if same(name, "back") {
        Ok(WalkDirection::Backward)
    } else if same(name, "left") {
        Ok(WalkDirection::Left)
    } else if same(name, "right") {
        Ok(WalkDirection::Right)
    } else {
        Err(Failure::bad_args(cat2("unknown direction ", name)))
    }
}

/// How many ticks a duration takes, a tick that is begun counting.
pub fn ticks_for(duration: u64) -> (r: u64)
    ensures
        r == (duration + TICK_MS - 1) / TICK_MS as int,
        duration <= r * TICK_MS < duration + TICK_MS,
{
    let whole: u64 = duration / TICK_MS;
    if duration % TICK_MS == 0 {
        whole
    } else {
        whole + 1
    }
}

/// What move-in-direction answers.
pub fn moved(direction: &str, duration: u64) -> (r: Answer)
    ensures
        r@ == AnswerView::plain(
            "Moved "@ + direction@ + " for "@ + dec(duration as int) + "ms."@,
        ),
{
    Answer::text(cat5("Moved ", direction, " for ", decimal(duration).as_str(), "ms."))
}

/// What respawn answers a bot that is not dead.
///
/// Getting up is never done unasked. A server under test may be checking what happens on death -- a
/// kept inventory, where it sends a player back to -- and a bot that got up by itself would have
/// walked through the one thing the check was looking at.
pub fn not_dead(at: BlockPos) -> (r: Answer)
    ensures
        r@ == AnswerView::plain("The bot is not dead. It is at "@ + written_of(at) + "."@),
{
    Answer::text(cat3("The bot is not dead. It is at ", written(at).as_str(), "."))
}

/// What respawn answers once the server has said where to stand.
pub fn respawned(at: BlockPos, dimension: &str) -> (r: Answer)
    ensures
        r@ == AnswerView::plain(
            "Respawned at "@ + written_of(at) + " in "@ + dimension@ + "."@,
        ),
{
    Answer::text(cat5("Respawned at ", written(at).as_str(), " in ", dimension, "."))
}

/// How long the bot is walked, in milliseconds.
pub fn duration(args: &Json) -> (r: u64)
    ensures
        r == nat_or_of(args@, "durationMs"@, 1000),
{
    nat_or(args, "durationMs", 1000)
}

/// A direction goes by its word.
pub proof fn a_direction_goes_by_its_word()
    ensures
        direction_of("forward"@) == Some(WalkDirection::Forward),
        direction_of("back"@) == Some(WalkDirection::Backward),
        direction_of("left"@) == Some(WalkDirection::Left),
        direction_of("right"@) == Some(WalkDirection::Right),
{
    reveal_strlit("forward");
    reveal_strlit("back");
    reveal_strlit("left");
    reveal_strlit("right");
    assert("forward"@.len() == 7);
    assert("back"@.len() == 4);
    assert("left"@.len() == 4);
    assert("right"@.len() == 5);
    assert("back"@[0] != "left"@[0]);
}

/// A stance is what is asked for of it, sneaking by one field and sprinting by the other; what is left
/// out is left alone.
pub proof fn a_stance_is_what_was_asked(args: Doc, sneak: bool, sprint: bool)
    ensures
        args.at("sneak"@) == Some(Doc::Bool(sneak)) && args.at("sprint"@) == Some(Doc::Bool(sprint))
            ==> stance_of(args) == Ok::<(Option<bool>, Option<bool>), FailureView>(
            (Some(sneak), Some(sprint)),
        ),
        args.at("sneak"@) == Some(Doc::Bool(sneak)) && args.at("sprint"@) is None ==> stance_of(args)
            == Ok::<(Option<bool>, Option<bool>), FailureView>((Some(sneak), None)),
        args.at("sneak"@) is None && args.at("sprint"@) == Some(Doc::Bool(sprint)) ==> stance_of(args)
            == Ok::<(Option<bool>, Option<bool>), FailureView>((None, Some(sprint))),
        yes_or_no(true) == "true"@,
        yes_or_no(false) == "false"@,
        TICK_MS == 50,
{
}

} // verus!
