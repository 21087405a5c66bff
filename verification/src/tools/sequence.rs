//! Inputs made one after another inside the bot, each on the client tick the one before ended on,
//! so that what lies between two of them is the ticks asked for and not a round trip each.
use vstd::prelude::*;

use crate::calls::{Answer, AnswerView, Failure, FailureView};
use crate::json::{a_field_reads_back, a_put_field_reads_back, an_empty_object_has_nothing, docs, Doc, Json, Number};
use crate::text::Line;
use crate::tools::args::{given, integer, integer_of, text, text_of};
use crate::tools::command::{slashed, slashed_of};
use crate::tools::input::{
    described_watch, key_name, press_args_of, watch_of, PressArgs, PressArgsView, Watch, WatchView,
    TICK_MS,
};
use crate::tools::windows::{click_args_of, ClickArgs, ClickArgsView};
use crate::words::{begins, cat2, cat3, cat4, cat6, cat7, dec, decimal, same, signed, wrapped_u32};

verus! {

pub enum Step {
    Press(PressArgs),
    Click(ClickArgs),
    Command(String),
    Wait(u32),
    WaitFor(Watch),
}

pub enum StepView {
    Press(PressArgsView),
    Click(ClickArgsView),
    Command(Seq<char>),
    Wait(u32),
    WaitFor(WatchView),
}

impl View for Step {
    type V = StepView;

    open spec fn view(&self) -> StepView {
        match self {
            Step::Press(press) => StepView::Press(press@),
            Step::Click(click) => StepView::Click(click@),
            Step::Command(command) => StepView::Command(command@),
            Step::Wait(ticks) => StepView::Wait(*ticks),
            Step::WaitFor(watch) => StepView::WaitFor(watch@),
        }
    }
}

pub open spec fn step_views(steps: Seq<Step>) -> Seq<StepView> {
    Seq::new(steps.len(), |i: int| steps[i]@)
}

impl StepView {
    pub open spec fn kind_of(self) -> Seq<char> {
        match self {
            StepView::Press(_) => "press"@,
            StepView::Click(_) => "click"@,
            StepView::Command(_) => "command"@,
            StepView::Wait(_) => "wait"@,
            StepView::WaitFor(_) => "waitFor"@,
        }
    }

    /// The step in words.
    pub open spec fn asked_of(self) -> Seq<char> {
        match self {
            StepView::Press(press) => {
                let asked = match press.slot {
                    Some(slot) => "press hotbar "@ + dec(slot as int),
                    None => "press "@ + key_name(press.key),
                };
                if press.hold > 1 {
                    asked + " for "@ + dec(press.hold as int) + " ticks"@
                } else {
                    asked
                }
            },
            StepView::Click(click) => if click.mode != "click"@ {
                let asked = click.mode + " slot "@ + dec(click.slot as int);
                if click.hotbar != 0 {
                    asked + " with hotbar "@ + dec(click.hotbar as int)
                } else {
                    asked
                }
            } else {
                let asked = "click slot "@ + dec(click.slot as int);
                let sided = if click.button == "right"@ {
                    asked + " with the right button"@
                } else {
                    asked
                };
                if click.shift {
                    sided + " with shift"@
                } else {
                    sided
                }
            },
            StepView::Command(command) => "command "@ + command,
            StepView::Wait(ticks) => if ticks == 1 {
                "wait 1 tick"@
            } else {
                "wait "@ + dec(ticks as int) + " ticks"@
            },
            StepView::WaitFor(watch) => "wait for /"@ + watch.source + "/ on "@ + watch.feed,
        }
    }

    /// The least the step takes, in ticks: a press is down for its hold and up for one, a click is
    /// sent on one tick, and a command or a line that is already there takes none.
    pub open spec fn least(self) -> int {
        match self {
            StepView::Press(press) => press.hold + 1,
            StepView::Click(_) => 1,
            StepView::Wait(ticks) => ticks as int,
            StepView::Command(_) => 0,
            StepView::WaitFor(_) => 0,
        }
    }
}

impl Step {
    /// What its patterns are is what they find by.
    pub open spec fn valid(&self) -> bool {
        match self {
            Step::Press(press) => press.valid(),
            Step::WaitFor(watch) => watch.valid(),
            _ => true,
        }
    }

    pub fn kind(&self) -> (r: &'static str)
        ensures
            r@ == self@.kind_of(),
    {
        match self {
            Step::Press(_) => "press",
            Step::Click(_) => "click",
            Step::Command(_) => "command",
            Step::Wait(_) => "wait",
            Step::WaitFor(_) => "waitFor",
        }
    }

    /// The step in words, which is what names it once it has been refused or cut short and has no
    /// answer of its own to be named by.
    pub fn asked(&self) -> (r: String)
        ensures
            r@ == self@.asked_of(),
    {
        match self {
            Step::Press(press) => {
                let mut asked = match press.slot {
                    Some(slot) => cat2("press hotbar ", decimal(slot as u64).as_str()),
                    None => cat2("press ", press.key.name()),
                };
                if press.hold > 1 {
                    asked.append(" for ");
                    asked.append(decimal(press.hold as u64).as_str());
                    asked.append(" ticks");
                }
                asked
            },
            Step::Click(click) => {
                if !same(click.mode.as_str(), "click") {
                    let mut asked = cat3(
                        click.mode.as_str(),
                        " slot ",
                        signed(click.slot).as_str(),
                    );
                    if click.hotbar != 0 {
                        asked.append(" with hotbar ");
                        asked.append(signed(click.hotbar).as_str());
                    }
                    asked
                } else {
                    let mut asked = cat2("click slot ", signed(click.slot).as_str());
                    if same(click.button.as_str(), "right") {
                        asked.append(" with the right button");
                    }
                    if click.shift {
                        asked.append(" with shift");
                    }
                    asked
                }
            },
            Step::Command(command) => cat2("command ", command.as_str()),
            Step::Wait(ticks) => if *ticks == 1 {
                "wait 1 tick".to_owned()
            } else {
                cat3("wait ", decimal(*ticks as u64).as_str(), " ticks")
            },
            Step::WaitFor(watch) => cat4(
                "wait for /",
                watch.source.as_str(),
                "/ on ",
                watch.feed.as_str(),
            ),
        }
    }

    pub fn least_ticks(&self) -> (r: u64)
        ensures
            r == self@.least(),
    {
        match self {
            Step::Press(press) => press.hold as u64 + 1,
            Step::Click(_) => 1,
            Step::Wait(ticks) => *ticks as u64,
            Step::Command(_) => 0,
            Step::WaitFor(_) => 0,
        }
    }
}

/// The kinds a step names, in order.
pub open spec fn named_kinds(step: Doc) -> Seq<Seq<char>> {
    named(step, "press"@) + named(step, "click"@) + named(step, "command"@) + named(step, "wait"@)
        + named(step, "waitFor"@)
}

pub open spec fn named(step: Doc, kind: Seq<char>) -> Seq<Seq<char>> {
    if given(step, kind) == Doc::Null {
        Seq::empty()
    } else {
        seq![kind]
    }
}

fn names(step: &Json, kind: &str) -> (r: bool)
    ensures
        r == (given(step@, kind@) != Doc::Null),
{
    match step.get(kind) {
        None => false,
        Some(Json::Null) => false,
        Some(_) => true,
    }
}

fn field(step: &Json, name: &str) -> (r: Json)
    ensures
        r@ == given(step@, name@),
{
    match step.get(name) {
        Some(value) => value.copy(),
        None => Json::Null,
    }
}

/// The arguments of a press, as a step gives them.
pub open spec fn press_fields(step: Doc, timeout: u64) -> Doc {
    Doc::object().with("key"@, given(step, "press"@)).with("slot"@, given(step, "slot"@)).with(
        "holdTicks"@,
        given(step, "holdTicks"@),
    ).with("repeat"@, Doc::number(1)).with("intervalTicks"@, Doc::number(1)).with(
        "after"@,
        Doc::Null,
    ).with("until"@, Doc::Null).with("timeoutMs"@, Doc::number(timeout as int))
}

/// The arguments of a click, as a step gives them.
pub open spec fn click_fields(step: Doc) -> Doc {
    Doc::object().with("slot"@, given(step, "click"@)).with("outside"@, Doc::Bool(false)).with(
        "button"@,
        given(step, "button"@),
    ).with("shift"@, given(step, "shift"@)).with("mode"@, given(step, "mode"@)).with(
        "hotbar"@,
        given(step, "hotbar"@),
    )
}

/// The watch of a wait, as a step gives it.
pub open spec fn wait_fields(step: Doc) -> Doc {
    Doc::object().with("feed"@, given(step, "feed"@)).with("pattern"@, given(step, "waitFor"@))
}

/// What the one kind a step names makes of it.
pub open spec fn shaped(step: Doc, kind: Seq<char>, timeout: u64) -> Result<StepView, FailureView> {
    if kind == "press"@ {
        match press_args_of(press_fields(step, timeout)) {
            Ok(press) => Ok(StepView::Press(press)),
            Err(failure) => Err(failure),
        }
    } else if kind == "click"@ {
        match click_args_of(click_fields(step)) {
            Ok(click) => Ok(StepView::Click(click)),
            Err(failure) => Err(failure),
        }
    } else if kind == "command"@ {
        match text_of(step, "command"@) {
            Ok(command) => Ok(StepView::Command(slashed_of(command))),
            Err(failure) => Err(failure),
        }
    } else if kind == "wait"@ {
        match integer_of(step, "wait"@, 1) {
            Ok(ticks) => Ok(StepView::Wait((ticks as int % 0x1_0000_0000) as u32)),
            Err(failure) => Err(failure),
        }
    } else {
        match watch_of(wait_fields(step)) {
            Ok(watch) => Ok(StepView::WaitFor(watch)),
            Err(failure) => Err(failure),
        }
    }
}

/// A failure with the number of the step it is of in front of its message.
pub open spec fn of_step(number: int, failure: FailureView) -> FailureView {
    FailureView {
        message: "step "@ + dec(number) + ": "@ + failure.message,
        ..failure
    }
}

/// The step at a place, which is exactly one of the kinds, or what is wrong with it.
pub open spec fn step_of(step: Doc, index: int, timeout: u64) -> Result<StepView, FailureView> {
    let number = index + 1;
    let kinds = named_kinds(step);
    if kinds.len() == 0 {
        Err(
            FailureView::refusal(
                "BAD_STEP"@,
                "step "@ + dec(number)
                    + " names none of press, click, command, wait or waitFor"@,
            ),
        )
    } else if kinds.len() > 1 {
        Err(
            FailureView::refusal(
                "BAD_STEP"@,
                "step "@ + dec(number) + " names both "@ + kinds[0] + " and "@ + kinds[1],
            ),
        )
    } else if kinds[0] == "press"@ && given(step, "press"@) == Doc::Text("hotbar"@) && given(
        step,
        "slot"@,
    ) == Doc::Null {
        Err(
            FailureView::refusal(
                "NO_SLOT"@,
                "step "@ + dec(number) + ": hotbar needs slot"@,
            ),
        )
    } else {
        match shaped(step, kinds[0], timeout) {
            Ok(made) => Ok(made),
            Err(failure) => Err(of_step(number, failure)),
        }
    }
}

fn shape(step: &Json, kind: &str, timeout: u64) -> (r: Result<Step, Failure>)
    ensures
        match r {
            Ok(made) => shaped(step@, kind@, timeout) == Ok::<StepView, FailureView>(made@)
                && made.valid(),
            Err(failure) => shaped(step@, kind@, timeout) == Err::<StepView, FailureView>(failure@),
        },
{
    if same(kind, "press") {
        let args = Json::object().with("key", field(step, "press")).with(
            "slot",
            field(step, "slot"),
        ).with("holdTicks", field(step, "holdTicks")).with("repeat", Json::number(1)).with(
            "intervalTicks",
            Json::number(1),
        ).with("after", Json::Null).with("until", Json::Null).with(
            "timeoutMs",
            Json::count(timeout),
        );
        match PressArgs::parse(&args) {
            Ok(press) => Ok(Step::Press(press)),
            Err(failure) => Err(failure),
        }
    } else if same(kind, "click") {
        let args = Json::object().with("slot", field(step, "click")).with(
            "outside",
            Json::Bool(false),
        ).with("button", field(step, "button")).with("shift", field(step, "shift")).with(
            "mode",
            field(step, "mode"),
        ).with("hotbar", field(step, "hotbar"));
        match ClickArgs::parse(&args) {
            Ok(click) => Ok(Step::Click(click)),
            Err(failure) => Err(failure),
        }
    } else if same(kind, "command") {
        match text(step, "command") {
            Ok(command) => Ok(Step::Command(slashed(command))),
            Err(failure) => Err(failure),
        }
    } else if same(kind, "wait") {
        match integer(step, "wait", 1) {
            Ok(ticks) => Ok(Step::Wait(wrapped_u32(ticks))),
            Err(failure) => Err(failure),
        }
    } else {
        let wanted = Json::object().with("feed", field(step, "feed")).with(
            "pattern",
            field(step, "waitFor"),
        );
        match Watch::parse(&wanted) {
            Ok(watch) => Ok(Step::WaitFor(watch)),
            Err(failure) => Err(failure),
        }
    }
}

/// The step at `index`, which is exactly one of the kinds; the fields that shape another kind are
/// filled in by the server whether or not the caller gave them, so they are not a second kind.
pub fn parse(step: &Json, index: usize, timeout: u64) -> (r: Result<Step, Failure>)
    requires
        index < u64::MAX,
    ensures
        match r {
            Ok(made) => step_of(step@, index as int, timeout) == Ok::<StepView, FailureView>(made@)
                && made.valid(),
            Err(failure) => step_of(step@, index as int, timeout) == Err::<StepView, FailureView>(
                failure@,
            ),
        },
{
    let number = decimal(index as u64 + 1);
    let mut kinds: Vec<&'static str> = Vec::new();
    if names(step, "press") {
        kinds.push("press");
    }
    if names(step, "click") {
        kinds.push("click");
    }
    if names(step, "command") {
        kinds.push("command");
    }
    if names(step, "wait") {
        kinds.push("wait");
    }
    if names(step, "waitFor") {
        kinds.push("waitFor");
    }
    proof {
        assert(crate::words::literals(kinds@) =~= named_kinds(step@));
        assert(crate::words::literals(kinds@).len() == kinds@.len());
        assert forall|i: int| 0 <= i < kinds@.len() implies (#[trigger] kinds@[i])@ == named_kinds(
            step@,
        )[i] by {
            assert(crate::words::literals(kinds@)[i] == kinds@[i]@);
        }
    }
    if kinds.len() == 0 {
        return Err(
            Failure::refused(
                "BAD_STEP",
                cat3(
                    "step ",
                    number.as_str(),
                    " names none of press, click, command, wait or waitFor",
                ),
            ),
        );
    }
    if kinds.len() > 1 {
        return Err(
            Failure::refused(
                "BAD_STEP",
                cat6("step ", number.as_str(), " names both ", kinds[0], " and ", kinds[1]),
            ),
        );
    }
    if same(kinds[0], "press") {
        let hotbar: bool = match step.get("press") {
            Some(Json::Text(key)) => same(key.as_str(), "hotbar"),
            _ => false,
        };
        if hotbar && !names(step, "slot") {
            return Err(
                Failure::refused("NO_SLOT", cat3("step ", number.as_str(), ": hotbar needs slot")),
            );
        }
    }
    match shape(step, kinds[0], timeout) {
        Ok(made) => Ok(made),
        Err(failure) => Err(
            Failure {
                class: failure.class,
                code: failure.code,
                message: cat4("step ", number.as_str(), ": ", failure.message.as_str()),
                retryable: failure.retryable,
            },
        ),
    }
}

/// The first `n` steps of a list, or the first of them that is wrong.
pub open spec fn steps_of(items: Seq<Doc>, timeout: u64, n: int) -> Result<
    Seq<StepView>,
    FailureView,
>
    decreases n,
{
    if n <= 0 {
        Ok(Seq::empty())
    } else {
        match steps_of(items, timeout, n - 1) {
            Err(failure) => Err(failure),
            Ok(before) => match step_of(items[n - 1], n - 1, timeout) {
                Err(failure) => Err(failure),
                Ok(step) => Ok(before.push(step)),
            },
        }
    }
}

proof fn a_wrong_step_stays_wrong(items: Seq<Doc>, timeout: u64, n: int, m: int)
    requires
        0 <= n <= m,
        steps_of(items, timeout, n) is Err,
    ensures
        steps_of(items, timeout, m) == steps_of(items, timeout, n),
    decreases m - n,
{
    if n < m {
        a_wrong_step_stays_wrong(items, timeout, n, m - 1);
    }
}

/// The least that steps take together, in ticks.
pub open spec fn least_of(steps: Seq<StepView>) -> int
    decreases steps.len(),
{
    if steps.len() == 0 {
        0
    } else {
        least_of(steps.drop_last()) + steps.last().least()
    }
}

/// The steps of a sequence, or what is wrong with it.
pub open spec fn sequence_of(args: Doc, timeout: u64) -> Result<Seq<StepView>, FailureView> {
    match args.items_at("steps"@) {
        None => Err(FailureView::misuse("expected a non-empty array of steps"@)),
        Some(items) => if items.len() == 0 {
            Err(FailureView::misuse("expected a non-empty array of steps"@))
        } else {
            match steps_of(items, timeout, items.len() as int) {
                Err(failure) => Err(failure),
                Ok(steps) => if least_of(steps) * TICK_MS > timeout {
                    Err(
                        FailureView::refusal(
                            "TOO_LONG"@,
                            "the "@ + dec(steps.len() as int) + " steps take at least "@ + dec(
                                least_of(steps) * TICK_MS,
                            ) + "ms, longer than timeoutMs ("@ + dec(timeout as int) + "ms)."@,
                        ),
                    )
                } else {
                    Ok(steps)
                },
            }
        },
    }
}

/// As many steps as can be counted to.
pub const MOST_STEPS: usize = 0x100_0000;

pub fn steps(args: &Json, timeout: u64) -> (r: Result<Vec<Step>, Failure>)
    requires
        args@.items_at("steps"@) matches Some(items) ==> items.len() <= MOST_STEPS,
    ensures
        match r {
            Ok(made) => sequence_of(args@, timeout) == Ok::<Seq<StepView>, FailureView>(
                step_views(made@),
            ) && forall|i: int| 0 <= i < made@.len() ==> (#[trigger] made@[i]).valid(),
            Err(failure) => sequence_of(args@, timeout) == Err::<Seq<StepView>, FailureView>(
                failure@,
            ),
        },
{
    let none: Vec<Json> = Vec::new();
    let list: &Vec<Json> = match args.items_at("steps") {
        Some(list) => list,
        None => &none,
    };
    if list.len() == 0 {
        return Err(Failure::bad_args("expected a non-empty array of steps".to_owned()));
    }
    let ghost items = docs(list@);
    let mut made: Vec<Step> = Vec::new();
    let mut least: u64 = 0;
    let mut i: usize = 0;
    proof {
        assert(step_views(made@) =~= Seq::empty());
        assert(items.len() == list@.len());
    }
    while i < list.len()
        invariant
            i <= list@.len() <= MOST_STEPS,
            list@.len() > 0,
            items == docs(list@),
            args@.items_at("steps"@) == Some(items),
            made@.len() == i,
            least <= i * 0x1_0000_0000,
            steps_of(items, timeout, i as int) == Ok::<Seq<StepView>, FailureView>(
                step_views(made@),
            ),
            least == least_of(step_views(made@)),
            forall|k: int| 0 <= k < made@.len() ==> (#[trigger] made@[k]).valid(),
        decreases list@.len() - i,
    {
        proof {
            assert(items[i as int] == list@[i as int]@);
        }
        match parse(&list[i], i, timeout) {
            Ok(step) => {
                let ghost before = made@;
                least = least + step.least_ticks();
                made.push(step);
                proof {
                    assert(step_views(made@) =~= step_views(before).push(step@));
                    assert(step_views(made@).drop_last() =~= step_views(before));
                }
            },
            Err(failure) => {
                proof {
                    a_wrong_step_stays_wrong(
                        items,
                        timeout,
                        i as int + 1,
                        items.len() as int,
                    );
                }
                return Err(failure);
            },
        }
        i += 1;
    }
    let total: u64 = least * 50;
    if total > timeout {
        return Err(
            Failure::refused(
                "TOO_LONG",
                cat7(
                    "the ",
                    decimal(made.len() as u64).as_str(),
                    " steps take at least ",
                    decimal(total).as_str(),
                    "ms, longer than timeoutMs (",
                    decimal(timeout).as_str(),
                    "ms).",
                ),
            ),
        );
    }
    Ok(made)
}

/// A command of a sequence begins with a slash, whatever it was given with.
pub proof fn a_command_has_its_slash(step: Doc, index: int, timeout: u64)
    ensures
        step_of(step, index, timeout) matches Ok(StepView::Command(command)) ==> begins(
            command,
            "/"@,
        ),
{
    match text_of(step, "command"@) {
        Ok(command) => {
            crate::tools::command::a_slash_is_put_once(command);
        },
        Err(_) => {},
    }
}

/// The lines shown since the sequence began, kept for a wait to look back over: a reply the server
/// sends while the step before is still settling has arrived before the wait starts.
pub struct Shown {
    /// Each line with the feed it was shown on.
    pub lines: Vec<(String, Line)>,
    /// How many lines there were when the step before started. A wait looks back that far.
    pub mark: usize,
    /// One past the line the last wait took, so two waits for the same words take two lines.
    pub consumed: usize,
}

/// The first line from a place on that a watch sees.
pub open spec fn seen_from(watch: Watch, lines: Seq<(String, Line)>, from: int) -> Option<int>
    decreases lines.len() - from,
{
    if from < 0 || from >= lines.len() {
        None
    } else if watch.sees(lines[from].0@, &lines[from].1) {
        Some(from)
    } else {
        seen_from(watch, lines, from + 1)
    }
}

pub open spec fn later(a: usize, b: usize) -> usize {
    if a < b {
        b
    } else {
        a
    }
}

impl Shown {
    pub open spec fn valid(&self) -> bool {
        self.mark <= self.lines@.len() && self.consumed <= self.lines@.len()
    }

    pub fn new() -> (r: Shown)
        ensures
            r.valid(),
            r.lines@ == Seq::<(String, Line)>::empty(),
            r.mark == 0,
            r.consumed == 0,
    {
        Shown { lines: Vec::new(), mark: 0, consumed: 0 }
    }

    /// A line came in.
    pub fn show(&mut self, feed: String, line: Line)
        requires
            old(self).valid(),
        ensures
            final(self).valid(),
            final(self).lines@ == old(self).lines@.push((feed, line)),
            final(self).mark == old(self).mark,
            final(self).consumed == old(self).consumed,
    {
        self.lines.push((feed, line));
    }

    /// A step starts: where a wait starting now looks from, with this start kept for the next one.
    pub fn begin(&mut self) -> (from: usize)
        requires
            old(self).valid(),
        ensures
            final(self).valid(),
            from == later(old(self).mark, old(self).consumed),
            final(self).lines == old(self).lines,
            final(self).mark == old(self).lines@.len(),
            final(self).consumed == old(self).consumed,
    {
        let from: usize = if self.mark < self.consumed {
            self.consumed
        } else {
            self.mark
        };
        self.mark = self.lines.len();
        from
    }

    /// Look for the line a wait is for among those shown, taking the first that nothing took.
    pub fn wait_for(&mut self, watch: &Watch, from: usize, waited_ms: u64) -> (r: Option<Json>)
        requires
            old(self).valid(),
            watch.valid(),
        ensures
            final(self).valid(),
            final(self).lines == old(self).lines,
            final(self).mark == old(self).mark,
            ({
                let found = seen_from(
                    *watch,
                    old(self).lines@,
                    later(from, old(self).consumed) as int,
                );
                match r {
                    Some(matched) => found matches Some(at) && final(self).consumed == at + 1
                        && matched@ == described_watch(
                        watch@,
                        Some(old(self).lines@[at].1.shown@),
                    ).with("waitedMs"@, Doc::number(waited_ms as int)),
                    None => found is None && final(self).consumed == old(self).consumed,
                }
            }),
    {
        let mut i: usize = if from < self.consumed {
            self.consumed
        } else {
            from
        };
        let start: usize = i;
        while i < self.lines.len()
            invariant
                start <= i,
                i <= self.lines@.len() || i == start,
                watch.valid(),
                self.valid(),
                *self == *old(self),
                start == later(from, self.consumed),
                seen_from(*watch, self.lines@, start as int) == seen_from(
                    *watch,
                    self.lines@,
                    i as int,
                ),
            decreases self.lines@.len() - i,
        {
            let (kind, line) = &self.lines[i];
            if watch.matches(kind.as_str(), line) {
                let matched = watch.describe(Some(line.shown.as_str())).with(
                    "waitedMs",
                    Json::count(waited_ms),
                );
                self.consumed = i + 1;
                return Some(matched);
            }
            i += 1;
        }
        None
    }
}

/// A line that a wait took is taken by no later one.
pub proof fn two_waits_take_two_lines(watch: Watch, lines: Seq<(String, Line)>, from: int, taken: int)
    requires
        0 <= from <= taken < lines.len(),
        seen_from(watch, lines, from) == Some(taken),
    ensures
        seen_from(watch, lines, taken + 1) matches Some(next) ==> next > taken,
{
    seen_is_later(watch, lines, taken + 1);
}

proof fn seen_is_later(watch: Watch, lines: Seq<(String, Line)>, from: int)
    ensures
        seen_from(watch, lines, from) matches Some(at) ==> at >= from,
    decreases lines.len() - from,
{
    if 0 <= from < lines.len() {
        seen_is_later(watch, lines, from + 1);
    }
}

/// How a step of a sequence came out.
pub enum Ended {
    Did(Json),
    Refused(Failure),
    TimedOut,
}

#[derive(Clone, Copy, Debug, PartialEq, Eq, Structural)]
pub enum Stop {
    Done,
    Refused,
    Timeout,
}

pub open spec fn stop_word(stop: Stop) -> Seq<char> {
    match stop {
        Stop::Done => "done"@,
        Stop::Refused => "refused"@,
        Stop::Timeout => "timeout"@,
    }
}

/// How a step came out leaves the sequence.
pub open spec fn stop_after(ended: Ended) -> Stop {
    match ended {
        Ended::Did(_) => Stop::Done,
        Ended::Refused(_) => Stop::Refused,
        Ended::TimedOut => Stop::Timeout,
    }
}

/// A step as it is recorded: what it did under its kind, or why it did not.
pub open spec fn record_of(
    kind: Seq<char>,
    asked: Seq<char>,
    started: u64,
    finished: u64,
    timeout: u64,
    ended: Ended,
) -> Doc {
    let record = Doc::object().with("kind"@, Doc::Text(kind)).with("asked"@, Doc::Text(asked)).with(
        "startedTick"@,
        Doc::number(started as int),
    ).with("endedTick"@, Doc::number(finished as int)).with("press"@, Doc::Null).with(
        "click"@,
        Doc::Null,
    ).with("command"@, Doc::Null).with("wait"@, Doc::Null).with("waitFor"@, Doc::Null).with(
        "error"@,
        Doc::Null,
    );
    match ended {
        Ended::Did(did) => record.put(kind, did@),
        Ended::Refused(failure) => record.put(
            "error"@,
            Doc::object().with("code"@, Doc::Text(failure.code@)).with(
                "message"@,
                Doc::Text(failure.message@),
            ),
        ),
        Ended::TimedOut => record.put(
            "error"@,
            Doc::object().with("code"@, Doc::Text("TIMEOUT"@)).with(
                "message"@,
                Doc::Text(
                    "timeoutMs ("@ + dec(timeout as int) + ") ran out during this step"@,
                ),
            ),
        ),
    }
}

/// A sequence as it runs: what of it was made, and how it stands.
///
/// A step the game refuses ends the sequence with the steps that ran still answered: what they did is
/// what the caller wanted the sequence for. So does the time running out, with the step it ran out in
/// cut short.
pub struct Sequence {
    pub total: usize,
    pub timeout: u64,
    pub ran: usize,
    pub stopped: Stop,
    pub ended_tick: u64,
    pub records: Vec<Json>,
}

impl Sequence {
    pub open spec fn valid(&self) -> bool {
        self.ran <= self.records@.len()
    }

    pub fn new(total: usize, timeout: u64) -> (r: Sequence)
        ensures
            r.valid(),
            r.total == total,
            r.timeout == timeout,
            r.ran == 0,
            r.stopped == Stop::Done,
            r.ended_tick == 0,
            r.records@ == Seq::<Json>::empty(),
    {
        Sequence {
            total,
            timeout,
            ran: 0,
            stopped: Stop::Done,
            ended_tick: 0,
            records: Vec::new(),
        }
    }

    /// A step came out: whether the next is to be made. It began on the tick the one before ended on.
    pub fn run(&mut self, kind: &str, asked: &str, finished: u64, ended: Ended) -> (goes_on: bool)
        requires
            old(self).valid(),
        ensures
            final(self).valid(),
            final(self).total == old(self).total,
            final(self).timeout == old(self).timeout,
            final(self).ran == old(self).ran + if ended is Did {
                1int
            } else {
                0int
            },
            final(self).stopped == stop_after(ended),
            final(self).ended_tick == finished,
            docs(final(self).records@) == docs(old(self).records@).push(
                record_of(
                    kind@,
                    asked@,
                    old(self).ended_tick,
                    finished,
                    old(self).timeout,
                    ended,
                ),
            ),
            goes_on == (ended is Did),
    {
        let ghost before = self.records@;
        let count: usize = self.records.len();
        let record = Json::object().with("kind", Json::text(kind)).with(
            "asked",
            Json::text(asked),
        ).with("startedTick", Json::count(self.ended_tick)).with(
            "endedTick",
            Json::count(finished),
        ).with("press", Json::Null).with("click", Json::Null).with("command", Json::Null).with(
            "wait",
            Json::Null,
        ).with("waitFor", Json::Null).with("error", Json::Null);
        self.ended_tick = finished;
        let (record, stopped) = match ended {
            Ended::Did(did) => (record.put(kind, did), Stop::Done),
            Ended::Refused(failure) => (
                record.put(
                    "error",
                    Json::object().with("code", Json::Text(failure.code)).with(
                        "message",
                        Json::Text(failure.message),
                    ),
                ),
                Stop::Refused,
            ),
            Ended::TimedOut => (
                record.put(
                    "error",
                    Json::object().with("code", Json::text("TIMEOUT")).with(
                        "message",
                        Json::Text(
                            cat3(
                                "timeoutMs (",
                                decimal(self.timeout).as_str(),
                                ") ran out during this step",
                            ),
                        ),
                    ),
                ),
                Stop::Timeout,
            ),
        };
        self.records.push(record);
        proof {
            assert(docs(self.records@) =~= docs(before).push(record@));
        }
        self.stopped = stopped;
        if stopped == Stop::Done {
            let after: usize = self.records.len();
            self.ran = self.ran + 1;
        }
        stopped == Stop::Done
    }

    pub fn answer(self) -> (r: Answer)
        ensures
            r@ == AnswerView::full(
                "ran "@ + dec(self.ran as int) + " of "@ + dec(self.total as int) + " step(s), "@
                    + stop_word(self.stopped),
                Doc::object().with("asked"@, Doc::number(self.total as int)).with(
                    "ran"@,
                    Doc::number(self.ran as int),
                ).with("ticks"@, Doc::number(self.ended_tick as int)).with(
                    "stopped"@,
                    Doc::Text(stop_word(self.stopped)),
                ).with("steps"@, Doc::list(docs(self.records@))),
            ),
    {
        let word: &str = match self.stopped {
            Stop::Done => "done",
            Stop::Refused => "refused",
            Stop::Timeout => "timeout",
        };
        let summary = cat6(
            "ran ",
            decimal(self.ran as u64).as_str(),
            " of ",
            decimal(self.total as u64).as_str(),
            " step(s), ",
            word,
        );
        Answer::data(
            summary,
            Json::object().with("asked", Json::count(self.total as u64)).with(
                "ran",
                Json::count(self.ran as u64),
            ).with("ticks", Json::count(self.ended_tick)).with("stopped", Json::text(word)).with(
                "steps",
                Json::list(self.records),
            ),
        )
    }
}

/// Whether a wait that started on a tick of the sequence is still going.
pub fn still_waiting(ticks: u64, first_tick: u64, started: u64, wait: u32) -> (r: bool)
    requires
        started + wait <= u64::MAX,
    ensures
        r == ((if ticks > first_tick {
            ticks - first_tick
        } else {
            0
        }) < started + wait),
{
    let now: u64 = if ticks > first_tick {
        ticks - first_tick
    } else {
        0
    };
    now < started + wait as u64
}

/// A step is one of the five kinds, by the one of their names it gives; with none or several of them it
/// is refused.
pub proof fn a_step_names_one_kind(step: Doc, index: int, timeout: u64)
    ensures
        ({
            let press = given(step, "press"@) != Doc::Null;
            let click = given(step, "click"@) != Doc::Null;
            let command = given(step, "command"@) != Doc::Null;
            let wait = given(step, "wait"@) != Doc::Null;
            let waits = given(step, "waitFor"@) != Doc::Null;
            let made = step_of(step, index, timeout);
            &&& !press && !click && !command && !wait && !waits ==> (made matches Err(failure)
                && failure.code == "BAD_STEP"@)
            &&& press && click || press && command || press && wait || press && waits || click && command
                || click && wait || click && waits || command && wait || command && waits || wait
                && waits ==> (made matches Err(failure) && failure.code == "BAD_STEP"@)
            &&& made matches Ok(StepView::Press(_)) ==> press
            &&& made matches Ok(StepView::Click(_)) ==> click
            &&& made matches Ok(StepView::Command(_)) ==> command
            &&& made matches Ok(StepView::Wait(_)) ==> wait
            &&& made matches Ok(StepView::WaitFor(_)) ==> waits
        }),
{
    reveal_strlit("press");
    reveal_strlit("click");
    reveal_strlit("command");
    reveal_strlit("wait");
    reveal_strlit("waitFor");
    assert("press"@.len() == 5);
    assert("click"@.len() == 5);
    assert("command"@.len() == 7);
    assert("wait"@.len() == 4);
    assert("waitFor"@.len() == 7);
    assert("press"@[0] != "click"@[0]);
    assert("command"@[0] != "waitFor"@[0]);
    let kinds = named_kinds(step);
    assert(named(step, "press"@).len() <= 1 && named(step, "click"@).len() <= 1);
    if kinds.len() == 1 {
        assert(kinds[0] == "press"@ || kinds[0] == "click"@ || kinds[0] == "command"@ || kinds[0]
            == "wait"@ || kinds[0] == "waitFor"@);
    }
}

/// What a step of each kind does is what was asked of it.
pub proof fn a_step_does_what_was_asked(step: Doc, timeout: u64, n: i64)
    ensures
        step.text_at("command"@) matches Some(command) ==> shaped(step, "command"@, timeout) == Ok::<
            StepView,
            FailureView,
        >(StepView::Command(slashed_of(command))),
        step.at("wait"@) == Some(Doc::Number(Number::Whole(n))) && 0 <= n <= u32::MAX ==> shaped(
            step,
            "wait"@,
            timeout,
        ) == Ok::<StepView, FailureView>(StepView::Wait(n as u32)),
        shaped(step, "waitFor"@, timeout) matches Ok(StepView::WaitFor(watch)) ==> step.text_at(
            "waitFor"@,
        ) == Some(watch.source) && step.text_at("feed"@) == Some(watch.feed),
        shaped(step, "press"@, timeout) matches Ok(StepView::Press(press)) ==> {
            &&& press.repeat == 1 && press.interval == 1
            &&& timeout <= i64::MAX ==> press.timeout == timeout
            &&& press.after is None && press.until is None
            &&& step.at("holdTicks"@) is None ==> press.hold == 1
            &&& step.int_at("holdTicks"@) matches Some(hold) ==> (0 <= hold <= u32::MAX ==> press.hold
                == hold)
            &&& step.text_at("press"@) matches Some(key) ==> crate::tools::input::key_of(key) == Some(
                press.key,
            )
        },
        shaped(step, "click"@, timeout) matches Ok(StepView::Click(click)) ==> {
            &&& !click.outside
            &&& step.int_at("click"@) matches Some(slot) ==> click.slot == slot
            &&& step.text_at("button"@) == Some(click.button)
            &&& step.at("mode"@) is None ==> click.mode == "click"@
            &&& step.text_at("mode"@) matches Some(mode) ==> click.mode == mode
            &&& step.bool_at("shift"@) matches Some(shift) ==> click.shift == shift
            &&& step.int_at("hotbar"@) matches Some(hotbar) ==> click.hotbar == hotbar
        },
{
    broadcast use {a_field_reads_back, an_empty_object_has_nothing};
    reveal_strlit("press");
    reveal_strlit("click");
    reveal_strlit("command");
    reveal_strlit("wait");
    reveal_strlit("waitFor");
    reveal_strlit("key");
    reveal_strlit("slot");
    reveal_strlit("holdTicks");
    reveal_strlit("repeat");
    reveal_strlit("intervalTicks");
    reveal_strlit("after");
    reveal_strlit("until");
    reveal_strlit("timeoutMs");
    reveal_strlit("outside");
    reveal_strlit("button");
    reveal_strlit("shift");
    reveal_strlit("mode");
    reveal_strlit("hotbar");
    reveal_strlit("feed");
    reveal_strlit("pattern");
    assert("press"@.len() == 5);
    assert("click"@.len() == 5);
    assert("command"@.len() == 7);
    assert("wait"@.len() == 4);
    assert("waitFor"@.len() == 7);
    assert("key"@.len() == 3);
    assert("slot"@.len() == 4);
    assert("holdTicks"@.len() == 9);
    assert("repeat"@.len() == 6);
    assert("intervalTicks"@.len() == 13);
    assert("after"@.len() == 5);
    assert("until"@.len() == 5);
    assert("timeoutMs"@.len() == 9);
    assert("outside"@.len() == 7);
    assert("button"@.len() == 6);
    assert("shift"@.len() == 5);
    assert("mode"@.len() == 4);
    assert("hotbar"@.len() == 6);
    assert("feed"@.len() == 4);
    assert("pattern"@.len() == 7);
    assert("press"@[0] != "click"@[0]);
    assert("press"@[0] != "after"@[0]);
    assert("press"@[0] != "until"@[0]);
    assert("press"@[0] != "shift"@[0]);
    assert("click"@[0] != "after"@[0]);
    assert("click"@[0] != "until"@[0]);
    assert("click"@[0] != "shift"@[0]);
    assert("command"@[0] != "waitFor"@[0]);
    assert("command"@[0] != "outside"@[0]);
    assert("command"@[0] != "pattern"@[0]);
    assert("wait"@[0] != "slot"@[0]);
    assert("wait"@[0] != "mode"@[0]);
    assert("wait"@[0] != "feed"@[0]);
    assert("waitFor"@[0] != "outside"@[0]);
    assert("waitFor"@[0] != "pattern"@[0]);
    assert("slot"@[0] != "mode"@[0]);
    assert("slot"@[0] != "feed"@[0]);
    assert("holdTicks"@[0] != "timeoutMs"@[0]);
    assert("repeat"@[0] != "button"@[0]);
    assert("repeat"@[0] != "hotbar"@[0]);
    assert("after"@[0] != "until"@[0]);
    assert("after"@[0] != "shift"@[0]);
    assert("until"@[0] != "shift"@[0]);
    assert("outside"@[0] != "pattern"@[0]);
    assert("button"@[0] != "hotbar"@[0]);
    assert("mode"@[0] != "feed"@[0]);
}

/// The least a step takes: a press its hold and a tick, a click one, a wait its ticks, the others none;
/// and steps take together what each takes.
pub proof fn steps_take_what_each_takes(steps: Seq<StepView>, step: StepView)
    ensures
        least_of(Seq::empty()) == 0,
        least_of(steps.push(step)) == least_of(steps) + step.least(),
        step matches StepView::Press(press) ==> step.least() == press.hold + 1,
        step is Click ==> step.least() == 1,
        step matches StepView::Wait(ticks) ==> step.least() == ticks,
        step is Command || step is WaitFor ==> step.least() == 0,
        step is Press ==> step.kind_of() == "press"@,
        step is Click ==> step.kind_of() == "click"@,
        step is Command ==> step.kind_of() == "command"@,
        step is Wait ==> step.kind_of() == "wait"@,
        step is WaitFor ==> step.kind_of() == "waitFor"@,
{
    assert(steps.push(step).drop_last() =~= steps);
}

/// Steps that take longer than they may are refused before any is made; those that do not are made
/// in order, each as it was asked for.
pub proof fn steps_are_made_within_their_time(args: Doc, timeout: u64, items: Seq<Doc>, i: int)
    requires
        args.items_at("steps"@) == Some(items),
    ensures
        items.len() == 0 ==> sequence_of(args, timeout) is Err,
        sequence_of(args, timeout) matches Ok(steps) ==> steps.len() == items.len() && least_of(steps)
            * 50 <= timeout && (0 <= i < items.len() ==> step_of(items[i], i, timeout) == Ok::<
            StepView,
            FailureView,
        >(steps[i])),
        steps_of(items, timeout, items.len() as int) matches Ok(steps) ==> (items.len() > 0
            && least_of(steps) * 50 > timeout ==> (sequence_of(args, timeout) matches Err(failure)
            && failure.code == "TOO_LONG"@)),
{
    made_in_order(items, timeout, items.len() as int, i);
}

proof fn made_in_order(items: Seq<Doc>, timeout: u64, n: int, i: int)
    requires
        0 <= n <= items.len(),
    ensures
        steps_of(items, timeout, n) matches Ok(steps) ==> steps.len() == n && (0 <= i < n ==> step_of(
            items[i],
            i,
            timeout,
        ) == Ok::<StepView, FailureView>(steps[i])),
    decreases n,
{
    if n > 0 {
        made_in_order(items, timeout, n - 1, i);
    }
}

/// A line is waited for from where the wait looks, and the first that is seen is taken.
pub proof fn the_first_line_seen_is_taken(watch: Watch, lines: Seq<(String, Line)>, from: int, other: int)
    requires
        0 <= from <= other < lines.len(),
    ensures
        match seen_from(watch, lines, from) {
            Some(at) => from <= at < lines.len() && watch.sees(lines[at].0@, &lines[at].1) && (other
                < at ==> !watch.sees(lines[other].0@, &lines[other].1)),
            None => !watch.sees(lines[other].0@, &lines[other].1),
        },
    decreases lines.len() - from,
{
    if !watch.sees(lines[from].0@, &lines[from].1) {
        if from < other {
            the_first_line_seen_is_taken(watch, lines, from + 1, other);
        } else if from + 1 < lines.len() {
            the_first_line_seen_is_taken(watch, lines, from + 1, from + 1);
        }
    }
}

/// What is told of a step: its kind, what was asked, when it began and ended, and why it failed where
/// it did.
pub proof fn a_step_is_told_as_it_went(
    kind: Seq<char>,
    asked: Seq<char>,
    started: u64,
    finished: u64,
    timeout: u64,
    ended: Ended,
)
    requires
        kind == "press"@ || kind == "click"@ || kind == "command"@ || kind == "wait"@ || kind
            == "waitFor"@,
    ensures
        stop_after(ended) == (match ended {
            Ended::Did(_) => Stop::Done,
            Ended::Refused(_) => Stop::Refused,
            Ended::TimedOut => Stop::Timeout,
        }),
        stop_word(Stop::Done) == "done"@,
        stop_word(Stop::Refused) == "refused"@,
        stop_word(Stop::Timeout) == "timeout"@,
        ({
            let told = record_of(kind, asked, started, finished, timeout, ended);
            &&& told.text_at("kind"@) == Some(kind)
            &&& told.text_at("asked"@) == Some(asked)
            &&& told.at("startedTick"@) == Some(Doc::number(started as int))
            &&& told.at("endedTick"@) == Some(Doc::number(finished as int))
            &&& ended matches Ended::Did(did) ==> told.at(kind) == Some(did@) && told.at("error"@)
                == Some(Doc::Null)
            &&& ended matches Ended::Refused(failure) ==> told.at(kind) == Some(Doc::Null) && told.at(
                "error"@,
            )->0.text_at("code"@) == Some(failure.code@) && told.at("error"@)->0.text_at("message"@)
                == Some(failure.message@)
            &&& ended is TimedOut ==> told.at("error"@)->0.text_at("code"@) == Some("TIMEOUT"@)
        }),
{
    broadcast use a_put_field_reads_back;

    broadcast use {a_field_reads_back, an_empty_object_has_nothing};
    reveal_strlit("kind");
    reveal_strlit("asked");
    reveal_strlit("startedTick");
    reveal_strlit("endedTick");
    reveal_strlit("press");
    reveal_strlit("click");
    reveal_strlit("command");
    reveal_strlit("wait");
    reveal_strlit("waitFor");
    reveal_strlit("error");
    reveal_strlit("code");
    reveal_strlit("message");
    assert("kind"@.len() == 4);
    assert("asked"@.len() == 5);
    assert("startedTick"@.len() == 11);
    assert("endedTick"@.len() == 9);
    assert("press"@.len() == 5);
    assert("click"@.len() == 5);
    assert("command"@.len() == 7);
    assert("wait"@.len() == 4);
    assert("waitFor"@.len() == 7);
    assert("error"@.len() == 5);
    assert("code"@.len() == 4);
    assert("message"@.len() == 7);
    assert("kind"@[0] != "wait"@[0]);
    assert("kind"@[0] != "code"@[0]);
    assert("asked"@[0] != "press"@[0]);
    assert("asked"@[0] != "click"@[0]);
    assert("asked"@[0] != "error"@[0]);
    assert("press"@[0] != "click"@[0]);
    assert("press"@[0] != "error"@[0]);
    assert("click"@[0] != "error"@[0]);
    assert("command"@[0] != "waitFor"@[0]);
    assert("command"@[0] != "message"@[0]);
    assert("wait"@[0] != "code"@[0]);
    assert("waitFor"@[0] != "message"@[0]);
}

/// What is wrong with a step is told with its number, counted from one.
pub proof fn a_wrong_step_is_told_with_its_number(number: int, failure: FailureView)
    ensures
        of_step(number, failure).message == "step "@ + dec(number) + ": "@ + failure.message,
        of_step(number, failure).code == failure.code && of_step(number, failure).class
            == failure.class,
{
}

/// How a step reads: the key or the slot and how long, the click and its button, the command, the
/// ticks, or what is waited for.
pub proof fn a_step_reads_as_it_was_asked(step: StepView)
    ensures
        step matches StepView::Command(command) ==> step.asked_of() == "command "@ + command,
        step matches StepView::Wait(ticks) ==> (ticks == 1 ==> step.asked_of() == "wait 1 tick"@) && (
        ticks != 1 ==> step.asked_of() == "wait "@ + dec(ticks as int) + " ticks"@),
        step matches StepView::WaitFor(watch) ==> step.asked_of() == "wait for /"@ + watch.source
            + "/ on "@ + watch.feed,
        step matches StepView::Press(press) ==> (press.slot is None && press.hold <= 1 ==> step.asked_of()
            == "press "@ + key_name(press.key)) && (press.slot is None && press.hold > 1
            ==> step.asked_of() == "press "@ + key_name(press.key) + " for "@ + dec(press.hold as int)
            + " ticks"@),
        step matches StepView::Click(click) ==> (click.mode == "click"@ && click.button == "left"@
            && !click.shift ==> step.asked_of() == "click slot "@ + dec(click.slot as int)) && (click.mode
            == "click"@ && click.button == "right"@ && !click.shift ==> step.asked_of()
            == "click slot "@ + dec(click.slot as int) + " with the right button"@),
{
    reveal_strlit("left");
    reveal_strlit("right");
    assert("left"@.len() == 4);
    assert("right"@.len() == 5);
}

/// A step of a click or a press has its arguments under the names of the tools of their own.
pub proof fn a_step_has_the_arguments_of_its_tool(step: Doc, timeout: u64)
    ensures
        click_fields(step).at("slot"@) == Some(given(step, "click"@)),
        click_fields(step).at("outside"@) == Some(Doc::Bool(false)),
        click_fields(step).at("button"@) == Some(given(step, "button"@)),
        click_fields(step).at("shift"@) == Some(given(step, "shift"@)),
        click_fields(step).at("mode"@) == Some(given(step, "mode"@)),
        click_fields(step).at("hotbar"@) == Some(given(step, "hotbar"@)),
        press_fields(step, timeout).at("key"@) == Some(given(step, "press"@)),
        press_fields(step, timeout).at("slot"@) == Some(given(step, "slot"@)),
        press_fields(step, timeout).at("holdTicks"@) == Some(given(step, "holdTicks"@)),
        press_fields(step, timeout).at("repeat"@) == Some(Doc::number(1)),
        press_fields(step, timeout).at("intervalTicks"@) == Some(Doc::number(1)),
        press_fields(step, timeout).at("timeoutMs"@) == Some(Doc::number(timeout as int)),
{
    broadcast use {a_field_reads_back, an_empty_object_has_nothing};
    reveal_strlit("slot");
    reveal_strlit("click");
    reveal_strlit("outside");
    reveal_strlit("button");
    reveal_strlit("shift");
    reveal_strlit("mode");
    reveal_strlit("hotbar");
    reveal_strlit("key");
    reveal_strlit("press");
    reveal_strlit("holdTicks");
    reveal_strlit("repeat");
    reveal_strlit("intervalTicks");
    reveal_strlit("after");
    reveal_strlit("until");
    reveal_strlit("timeoutMs");
    assert("slot"@.len() == 4);
    assert("click"@.len() == 5);
    assert("outside"@.len() == 7);
    assert("button"@.len() == 6);
    assert("shift"@.len() == 5);
    assert("mode"@.len() == 4);
    assert("hotbar"@.len() == 6);
    assert("key"@.len() == 3);
    assert("press"@.len() == 5);
    assert("holdTicks"@.len() == 9);
    assert("repeat"@.len() == 6);
    assert("intervalTicks"@.len() == 13);
    assert("after"@.len() == 5);
    assert("until"@.len() == 5);
    assert("timeoutMs"@.len() == 9);
    assert("slot"@[0] != "mode"@[0]);
    assert("click"@[0] != "shift"@[0]);
    assert("click"@[0] != "press"@[0]);
    assert("click"@[0] != "after"@[0]);
    assert("click"@[0] != "until"@[0]);
    assert("button"@[0] != "hotbar"@[0]);
    assert("button"@[0] != "repeat"@[0]);
    assert("shift"@[0] != "press"@[0]);
    assert("shift"@[0] != "after"@[0]);
    assert("shift"@[0] != "until"@[0]);
    assert("hotbar"@[0] != "repeat"@[0]);
    assert("press"@[0] != "after"@[0]);
    assert("press"@[0] != "until"@[0]);
    assert("holdTicks"@[0] != "timeoutMs"@[0]);
    assert("after"@[0] != "until"@[0]);
}

} // verus!
