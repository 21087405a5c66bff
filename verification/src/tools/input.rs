//! A key pressed tick by tick, the way the keyboard and the mouse press it.
use vstd::prelude::*;

use crate::calls::{Answer, AnswerView, Failure, FailureView};
use crate::json::{a_field_reads_back, an_empty_object_has_nothing, Doc, Json, Number};
use crate::pattern::{expression_fault, Pattern};
use crate::text::Line;
use crate::tools::args::{given, integer, integer_of, text, text_of};
use crate::words::{
    begins, cat2, cat4, cat7, contains, dec, decimal, literals, occurs, same, starts_with,
    wrapped_u32, wrapped_u64, wrapped_u8,
};

verus! {

pub const TICK_MS: u64 = 50;

/// What the client waits between uses while the button is held, and so between uses here.
pub const USE_DELAY_TICKS: u32 = 4;

/// What a survival client waits after a click that hit nothing before the next one swings.
pub const MISS_TICKS: u32 = 10;

/// How long a block the button was let go of can still be on its way to starting to break, and the
/// most a released key is waited on to reach the server.
pub const SETTLE_TICKS: u32 = 3;

#[derive(Clone, Copy, Debug, PartialEq, Eq, Structural)]
pub enum Key {
    Jump,
    Sneak,
    Sprint,
    Use,
    Attack,
    Hotbar,
    ScrollUp,
    ScrollDown,
    SwapOffhand,
    Drop,
}

/// The key of a name.
pub open spec fn key_of(name: Seq<char>) -> Option<Key> {
    if name == "jump"@ {
        Some(Key::Jump)
    } else if name == "sneak"@ {
        Some(Key::Sneak)
    } else if name == "sprint"@ {
        Some(Key::Sprint)
    } else if name == "use"@ {
        Some(Key::Use)
    } else if name == "attack"@ {
        Some(Key::Attack)
    } else if name == "hotbar"@ {
        Some(Key::Hotbar)
    } else if name == "scroll-up"@ {
        Some(Key::ScrollUp)
    } else if name == "scroll-down"@ {
        Some(Key::ScrollDown)
    } else if name == "swap-offhand"@ {
        Some(Key::SwapOffhand)
    } else if name == "drop"@ {
        Some(Key::Drop)
    } else {
        None
    }
}

/// The name of a key.
pub open spec fn key_name(key: Key) -> Seq<char> {
    match key {
        Key::Jump => "jump"@,
        Key::Sneak => "sneak"@,
        Key::Sprint => "sprint"@,
        Key::Use => "use"@,
        Key::Attack => "attack"@,
        Key::Hotbar => "hotbar"@,
        Key::ScrollUp => "scroll-up"@,
        Key::ScrollDown => "scroll-down"@,
        Key::SwapOffhand => "swap-offhand"@,
        Key::Drop => "drop"@,
    }
}

/// The name of a key is the name it is found by.
pub proof fn a_key_goes_by_its_name(key: Key)
    ensures
        key_of(key_name(key)) == Some(key),
{
    reveal_strlit("jump");
    reveal_strlit("sneak");
    reveal_strlit("sprint");
    reveal_strlit("use");
    reveal_strlit("attack");
    reveal_strlit("hotbar");
    reveal_strlit("scroll-up");
    reveal_strlit("scroll-down");
    reveal_strlit("swap-offhand");
    reveal_strlit("drop");
    assert("sprint"@[0] != "attack"@[0]);
    assert("sprint"@[0] != "hotbar"@[0]);
    assert("attack"@[0] != "hotbar"@[0]);
    assert("jump"@[0] != "drop"@[0]);
    assert("sneak"@.len() == 5);
    assert("use"@.len() == 3);
    assert("scroll-up"@.len() == 9);
    assert("scroll-down"@.len() == 11);
    assert("swap-offhand"@.len() == 12);
}

impl Key {
    pub fn of(name: &str) -> (r: Result<Key, Failure>)
        ensures
            match r {
                Ok(key) => key_of(name@) == Some(key),
                Err(failure) => key_of(name@) is None && failure@ == FailureView::misuse(
                    "unknown key "@ + name@,
                ),
            },
    {
        if same(name, "jump") {
            Ok(Key::Jump)
        } else if same(name, "sneak") {
            Ok(Key::Sneak)
        } else if same(name, "sprint") {
            Ok(Key::Sprint)
        } else if same(name, "use") {
            Ok(Key::Use)
        } else if same(name, "attack") {
            Ok(Key::Attack)
        } else if same(name, "hotbar") {
            Ok(Key::Hotbar)
        } else if same(name, "scroll-up") {
            Ok(Key::ScrollUp)
        } else if same(name, "scroll-down") {
            Ok(Key::ScrollDown)
        } else if same(name, "swap-offhand") {
            Ok(Key::SwapOffhand)
        } else if same(name, "drop") {
            Ok(Key::Drop)
        } else {
            Err(Failure::bad_args(cat2("unknown key ", name)))
        }
    }

    pub fn name(self) -> (r: &'static str)
        ensures
            r@ == key_name(self),
    {
        match self {
            Key::Jump => "jump",
            Key::Sneak => "sneak",
            Key::Sprint => "sprint",
            Key::Use => "use",
            Key::Attack => "attack",
            Key::Hotbar => "hotbar",
            Key::ScrollUp => "scroll-up",
            Key::ScrollDown => "scroll-down",
            Key::SwapOffhand => "swap-offhand",
            Key::Drop => "drop",
        }
    }
}

/// A line on one of the shown feeds that a press waits on, or stops at.
pub struct Watch {
    pub feed: String,
    pub source: String,
    pub pattern: Pattern,
}

/// The feed and the expression of a watch.
pub struct WatchView {
    pub feed: Seq<char>,
    pub source: Seq<char>,
}

impl View for Watch {
    type V = WatchView;

    open spec fn view(&self) -> WatchView {
        WatchView { feed: self.feed@, source: self.source@ }
    }
}

/// What a watch is made of: a feed, and an expression that is one.
pub open spec fn watch_of(wanted: Doc) -> Result<WatchView, FailureView> {
    match text_of(wanted, "pattern"@) {
        Ok(source) => match expression_fault(source) {
            Some(invalid) => Err(
                FailureView::refusal(
                    "BAD_PATTERN"@,
                    "\""@ + source + "\" is not a valid regular expression: "@ + invalid,
                ),
            ),
            None => match text_of(wanted, "feed"@) {
                Ok(feed) => Ok(WatchView { feed, source }),
                Err(failure) => Err(failure),
            },
        },
        Err(failure) => Err(failure),
    }
}

impl Watch {
    /// The expression is the one the pattern finds by.
    pub open spec fn valid(&self) -> bool {
        self.pattern.expression() == self.source@
    }

    pub fn parse(wanted: &Json) -> (r: Result<Watch, Failure>)
        ensures
            match r {
                Ok(watch) => watch_of(wanted@) == Ok::<WatchView, FailureView>(watch@)
                    && watch.valid(),
                Err(failure) => watch_of(wanted@) == Err::<WatchView, FailureView>(failure@),
            },
    {
        let source: &str = match text(wanted, "pattern") {
            Ok(source) => source,
            Err(failure) => {
                return Err(failure);
            },
        };
        match Pattern::new(source) {
            Ok(pattern) => watched(wanted, source, pattern),
            Err(invalid) => Err(bad_pattern(source, invalid.as_str())),
        }
    }

    /// Whether a line on a feed is the one watched for.
    pub open spec fn sees(&self, kind: Seq<char>, line: &Line) -> bool {
        self.feed@ == kind && line.found(self.source@)
    }

    pub fn matches(&self, kind: &str, line: &Line) -> (r: bool)
        requires
            self.valid(),
        ensures
            r == self.sees(kind@, line),
    {
        same(self.feed.as_str(), kind) && line.matches(&self.pattern)
    }

    pub fn describe(&self, matched: Option<&str>) -> (r: Json)
        ensures
            r@ == described_watch(
                self@,
                match matched {
                    Some(line) => Some(line@),
                    None => None,
                },
            ),
    {
        let line = match matched {
            Some(line) => Json::text(line),
            None => Json::Null,
        };
        Json::object().with("feed", Json::Text(self.feed.clone())).with(
            "pattern",
            Json::Text(self.source.clone()),
        ).with("matched", line)
    }
}

/// What is said of an expression that is none.
pub fn bad_pattern(source: &str, invalid: &str) -> (r: Failure)
    ensures
        r@ == FailureView::refusal(
            "BAD_PATTERN"@,
            "\""@ + source@ + "\" is not a valid regular expression: "@ + invalid@,
        ),
{
    Failure::refused(
        "BAD_PATTERN",
        cat4("\"", source, "\" is not a valid regular expression: ", invalid),
    )
}

/// The watch for an expression on the feed that is asked for.
pub fn watched(wanted: &Json, source: &str, pattern: Pattern) -> (r: Result<Watch, Failure>)
    ensures
        match r {
            Ok(watch) => text_of(wanted@, "feed"@) == Ok::<Seq<char>, FailureView>(watch.feed@)
                && watch.source@ == source@ && watch.pattern == pattern,
            Err(failure) => text_of(wanted@, "feed"@) == Err::<Seq<char>, FailureView>(failure@),
        },
{
    match text(wanted, "feed") {
        Ok(feed) => Ok(Watch { feed: feed.to_owned(), source: source.to_owned(), pattern }),
        Err(failure) => Err(failure),
    }
}

pub open spec fn described_watch(watch: WatchView, matched: Option<Seq<char>>) -> Doc {
    Doc::object().with("feed"@, Doc::Text(watch.feed)).with(
        "pattern"@,
        Doc::Text(watch.source),
    ).with(
        "matched"@,
        match matched {
            Some(line) => Doc::Text(line),
            None => Doc::Null,
        },
    )
}

/// A watch that may not be asked for.
pub open spec fn maybe_watch(wanted: Doc) -> Result<Option<WatchView>, FailureView> {
    match wanted {
        Doc::Null => Ok(None),
        _ => match watch_of(wanted) {
            Ok(watch) => Ok(Some(watch)),
            Err(failure) => Err(failure),
        },
    }
}

pub open spec fn watch_view(watch: Option<Watch>) -> Option<WatchView> {
    match watch {
        Some(watch) => Some(watch@),
        None => None,
    }
}

pub open spec fn watch_valid(watch: Option<Watch>) -> bool {
    match watch {
        Some(watch) => watch.valid(),
        None => true,
    }
}

fn watch_at(args: &Json, name: &str) -> (r: Result<Option<Watch>, Failure>)
    ensures
        match r {
            Ok(watch) => maybe_watch(given(args@, name@)) == Ok::<
                Option<WatchView>,
                FailureView,
            >(watch_view(watch)) && watch_valid(watch),
            Err(failure) => maybe_watch(given(args@, name@)) == Err::<
                Option<WatchView>,
                FailureView,
            >(failure@),
        },
{
    match args.get(name) {
        None => Ok(None),
        Some(Json::Null) => Ok(None),
        Some(wanted) => match Watch::parse(wanted) {
            Ok(watch) => Ok(Some(watch)),
            Err(failure) => Err(failure),
        },
    }
}

/// press-input's arguments as the wire gives them, checked.
pub struct PressArgs {
    pub key: Key,
    pub slot: Option<u8>,
    pub hold: u32,
    pub repeat: u32,
    pub interval: u32,
    pub after: Option<Watch>,
    pub until: Option<Watch>,
    pub timeout: u64,
}

pub struct PressArgsView {
    pub key: Key,
    pub slot: Option<u8>,
    pub hold: u32,
    pub repeat: u32,
    pub interval: u32,
    pub after: Option<WatchView>,
    pub until: Option<WatchView>,
    pub timeout: u64,
}

impl View for PressArgs {
    type V = PressArgsView;

    open spec fn view(&self) -> PressArgsView {
        PressArgsView {
            key: self.key,
            slot: self.slot,
            hold: self.hold,
            repeat: self.repeat,
            interval: self.interval,
            after: watch_view(self.after),
            until: watch_view(self.until),
            timeout: self.timeout,
        }
    }
}

/// The slot an argument names, where it names one.
pub open spec fn slot_of(args: Doc) -> Result<Option<u8>, FailureView> {
    match given(args, "slot"@) {
        Doc::Null => Ok(None),
        _ => match integer_of(args, "slot"@, 0) {
            Ok(n) => Ok(Some((n as int % 0x100) as u8)),
            Err(failure) => Err(failure),
        },
    }
}

/// The numbers and the watches of a press, once its key and its slot are known.
pub open spec fn press_rest(args: Doc, key: Key, slot: Option<u8>) -> Result<
    PressArgsView,
    FailureView,
> {
    let hold = integer_of(args, "holdTicks"@, 1);
    let repeat = integer_of(args, "repeat"@, 1);
    let interval = integer_of(args, "intervalTicks"@, 1);
    let after = maybe_watch(given(args, "after"@));
    let until = maybe_watch(given(args, "until"@));
    let timeout = integer_of(args, "timeoutMs"@, 10_000);
    if hold is Err {
        Err(hold->Err_0)
    } else if repeat is Err {
        Err(repeat->Err_0)
    } else if interval is Err {
        Err(interval->Err_0)
    } else if after is Err {
        Err(after->Err_0)
    } else if until is Err {
        Err(until->Err_0)
    } else if timeout is Err {
        Err(timeout->Err_0)
    } else {
        Ok(
            PressArgsView {
                key,
                slot: if key == Key::Hotbar {
                    slot
                } else {
                    None
                },
                hold: (hold->Ok_0 as int % 0x1_0000_0000) as u32,
                repeat: (repeat->Ok_0 as int % 0x1_0000_0000) as u32,
                interval: (interval->Ok_0 as int % 0x1_0000_0000) as u32,
                after: after->Ok_0,
                until: until->Ok_0,
                timeout: (timeout->Ok_0 as int % 0x1_0000_0000_0000_0000) as u64,
            },
        )
    }
}

/// What press-input's arguments say, or the first of them that is wrong.
pub open spec fn press_args_of(args: Doc) -> Result<PressArgsView, FailureView> {
    match text_of(args, "key"@) {
        Err(failure) => Err(failure),
        Ok(name) => match key_of(name) {
            None => Err(FailureView::misuse("unknown key "@ + name)),
            Some(key) => match slot_of(args) {
                Err(failure) => Err(failure),
                Ok(slot) => if key == Key::Hotbar && slot is None {
                    Err(
                        FailureView::refusal(
                            "NO_SLOT"@,
                            "hotbar needs slot, 0 being the leftmost hotbar slot."@,
                        ),
                    )
                } else {
                    press_rest(args, key, slot)
                },
            },
        },
    }
}

impl PressArgs {
    pub open spec fn valid(&self) -> bool {
        watch_valid(self.after) && watch_valid(self.until)
    }

    pub fn parse(args: &Json) -> (r: Result<PressArgs, Failure>)
        ensures
            match r {
                Ok(press) => press_args_of(args@) == Ok::<PressArgsView, FailureView>(press@)
                    && press.valid(),
                Err(failure) => press_args_of(args@) == Err::<PressArgsView, FailureView>(failure@),
            },
    {
        let name: &str = match text(args, "key") {
            Ok(name) => name,
            Err(failure) => {
                return Err(failure);
            },
        };
        let key = match Key::of(name) {
            Ok(key) => key,
            Err(failure) => {
                return Err(failure);
            },
        };
        let slot: Option<u8> = match args.get("slot") {
            None => None,
            Some(Json::Null) => None,
            Some(_) => match integer(args, "slot", 0) {
                Ok(n) => Some(wrapped_u8(n)),
                Err(failure) => {
                    return Err(failure);
                },
            },
        };
        if key == Key::Hotbar && slot.is_none() {
            return Err(
                Failure::refused(
                    "NO_SLOT",
                    "hotbar needs slot, 0 being the leftmost hotbar slot.".to_owned(),
                ),
            );
        }
        let hold: i64 = match integer(args, "holdTicks", 1) {
            Ok(n) => n,
            Err(failure) => {
                return Err(failure);
            },
        };
        let repeat: i64 = match integer(args, "repeat", 1) {
            Ok(n) => n,
            Err(failure) => {
                return Err(failure);
            },
        };
        let interval: i64 = match integer(args, "intervalTicks", 1) {
            Ok(n) => n,
            Err(failure) => {
                return Err(failure);
            },
        };
        let after = match watch_at(args, "after") {
            Ok(watch) => watch,
            Err(failure) => {
                return Err(failure);
            },
        };
        let until = match watch_at(args, "until") {
            Ok(watch) => watch,
            Err(failure) => {
                return Err(failure);
            },
        };
        let timeout: i64 = match integer(args, "timeoutMs", 10_000) {
            Ok(n) => n,
            Err(failure) => {
                return Err(failure);
            },
        };
        Ok(
            PressArgs {
                key,
                slot: if key == Key::Hotbar {
                    slot
                } else {
                    None
                },
                hold: wrapped_u32(hold),
                repeat: wrapped_u32(repeat),
                interval: wrapped_u32(interval),
                after,
                until,
                timeout: wrapped_u64(timeout),
            },
        )
    }
}

pub open spec fn ticks_of(count: u32) -> Seq<char> {
    dec(count as int) + " "@ + if count == 1 {
        "tick"@
    } else {
        "ticks"@
    }
}

pub fn ticks(count: u32) -> (r: String)
    ensures
        r@ == ticks_of(count),
{
    let mut out = cat2(decimal(count as u64).as_str(), " ");
    out.append(
        if count == 1 {
            "tick"
        } else {
            "ticks"
        },
    );
    out
}

/// How long the presses take, in milliseconds: each held, and one wait between each two.
pub open spec fn sequence_of(repeat: u32, hold: u32, interval: u32) -> int {
    (repeat * hold + (repeat - 1) * interval) * TICK_MS
}

/// Whether presses fit in the time they are given, and what is said when they do not.
pub fn fits_in_time(args: &PressArgs) -> (r: Result<(), Failure>)
    requires
        args.repeat >= 1,
        sequence_of(args.repeat, args.hold, args.interval) <= u64::MAX,
    ensures
        match r {
            Ok(()) => sequence_of(args.repeat, args.hold, args.interval) <= args.timeout,
            Err(failure) => {
                let sequence = sequence_of(args.repeat, args.hold, args.interval);
                &&& sequence > args.timeout
                &&& failure@ == FailureView::refusal(
                    "TOO_LONG"@,
                    dec(args.repeat as int) + " presses of "@ + ticks_of(args.hold) + ", "@
                        + ticks_of(args.interval) + " apart, take "@ + dec(sequence)
                        + "ms, longer than timeoutMs ("@ + dec(args.timeout as int) + "ms)."@,
                )
            },
        },
{
    proof {
        let (a, b, c) = (args.repeat as int, args.hold as int, args.interval as int);
        assert(0 <= a * b <= 0xffff_ffff * 0xffff_ffff) by (nonlinear_arith)
            requires
                0 <= a <= 0xffff_ffff,
                0 <= b <= 0xffff_ffff,
        ;
        assert(0 <= (a - 1) * c <= 0xffff_ffff * 0xffff_ffff) by (nonlinear_arith)
            requires
                1 <= a <= 0xffff_ffff,
                0 <= c <= 0xffff_ffff,
        ;
    }
    let held: u128 = args.repeat as u128 * args.hold as u128;
    let between: u128 = (args.repeat as u128 - 1) * args.interval as u128;
    let sequence: u128 = (held + between) * 50;
    if sequence > args.timeout as u128 {
        let mut message = cat7(
            decimal(args.repeat as u64).as_str(),
            " presses of ",
            ticks(args.hold).as_str(),
            ", ",
            ticks(args.interval).as_str(),
            " apart, take ",
            decimal(sequence as u64).as_str(),
        );
        message.append("ms, longer than timeoutMs (");
        message.append(decimal(args.timeout).as_str());
        message.append("ms).");
        Err(Failure::refused("TOO_LONG", message))
    } else {
        Ok(())
    }
}

/// Whether a key would reach the game: a window takes the keys while one is open, and a dialog is a
/// screen too.
pub fn game_takes_keys(dialog: bool, window: bool) -> (r: Result<(), Failure>)
    ensures
        match r {
            Ok(()) => !dialog && !window,
            Err(failure) => (dialog || window) && failure@ == FailureView::refusal(
                "WINDOW_OPEN"@,
                "a window is open, and keys go to it rather than to the game; close-window first."@,
            ),
        },
{
    if dialog || window {
        Err(
            Failure::refused(
                "WINDOW_OPEN",
                "a window is open, and keys go to it rather than to the game; close-window first.".to_owned(),
            ),
        )
    } else {
        Ok(())
    }
}

#[derive(Clone, Copy, Debug, PartialEq, Eq, Structural)]
pub enum Phase {
    Waiting,
    /// Held, for this many ticks more.
    Down(u32),
    /// Let go, for this many ticks more.
    Up(u32),
}

/// Why the presses came to an end.
#[derive(Clone, Copy, Debug, PartialEq, Eq, Structural)]
pub enum Stopped {
    Done,
    Until,
    Timeout,
}

/// What is to be done with the key.
#[derive(Clone, Copy, Debug, PartialEq, Eq, Structural)]
pub enum Stroke {
    Nothing,
    Press,
    Release,
    /// Let go of it, and press no more.
    Finish,
}

/// Where a run of presses stands.
#[derive(Clone, Copy, Debug, PartialEq, Eq, Structural)]
pub struct Progress {
    pub phase: Phase,
    pub presses: u32,
    /// Set once the presses came to an end.
    pub stopped: Option<Stopped>,
}

impl Progress {
    /// Whether a run of so many presses can stand here: none before it began, at least one while the
    /// key is held or afterwards, and never more than were asked for.
    pub open spec fn valid(self, repeat: u32) -> bool {
        &&& self.presses <= repeat
        &&& match self.phase {
            Phase::Waiting => self.presses == 0,
            Phase::Down(_) => 1 <= self.presses,
            Phase::Up(_) => self.presses < repeat,
        }
    }

    /// Where a run starts: waiting for its line, or with the first press on the next tick.
    pub open spec fn start(waits: bool) -> Progress {
        Progress {
            phase: if waits {
                Phase::Waiting
            } else {
                Phase::Up(1)
            },
            presses: 0,
            stopped: None,
        }
    }

    /// A tick. It counts once the server has been told, however long it takes to tell it.
    pub open spec fn ticked(self, arrived: bool, repeat: u32, hold: u32, interval: u32) -> (
        Progress,
        Stroke,
    ) {
        match self.phase {
            Phase::Waiting => (self, Stroke::Nothing),
            Phase::Down(left) => if !arrived {
                (self, Stroke::Nothing)
            } else if left > 1 {
                (Progress { phase: Phase::Down((left - 1) as u32), ..self }, Stroke::Nothing)
            } else if self.presses == repeat {
                (Progress { stopped: Some(Stopped::Done), ..self }, Stroke::Finish)
            } else {
                (Progress { phase: Phase::Up(interval), ..self }, Stroke::Release)
            },
            Phase::Up(left) => if !arrived {
                (self, Stroke::Nothing)
            } else if left > 1 {
                (Progress { phase: Phase::Up((left - 1) as u32), ..self }, Stroke::Nothing)
            } else {
                (
                    Progress {
                        phase: Phase::Down(hold),
                        presses: (self.presses + 1) as u32,
                        ..self
                    },
                    Stroke::Press,
                )
            },
        }
    }

    /// A line, by whether it is the one waited for and the one to stop at.
    pub open spec fn heard(self, begins: bool, ends: bool, hold: u32) -> (Progress, Stroke) {
        match self.phase {
            Phase::Waiting => if begins {
                (
                    Progress {
                        phase: Phase::Down(hold),
                        presses: (self.presses + 1) as u32,
                        ..self
                    },
                    Stroke::Press,
                )
            } else {
                (self, Stroke::Nothing)
            },
            _ => if ends {
                (Progress { stopped: Some(Stopped::Until), ..self }, Stroke::Finish)
            } else {
                (self, Stroke::Nothing)
            },
        }
    }
}

/// The presses of one call, event by event.
///
/// The first press goes out on the tick after the call, the way the other kind of bot's does, or with
/// the line that is waited for. A line this is waiting on is matched as it is handed over from the
/// connection, and the press goes out from the same place.
pub struct Press {
    pub args: PressArgs,
    pub at: Progress,
    pub waited: u64,
    pub after_matched: Option<String>,
    pub until_matched: Option<String>,
}

impl Press {
    pub open spec fn valid(&self) -> bool {
        &&& self.args.valid()
        &&& self.args.repeat >= 1
        &&& self.at.valid(self.args.repeat)
        &&& self.at.phase == Phase::Waiting ==> self.args.after is Some
    }

    pub fn new(args: PressArgs) -> (r: Press)
        requires
            args.valid(),
            args.repeat >= 1,
        ensures
            r.valid(),
            r.args == args,
            r.at == Progress::start(args.after is Some),
            r.waited == 0,
            r.after_matched is None,
            r.until_matched is None,
    {
        let waits: bool = args.after.is_some();
        Press {
            args,
            at: Progress {
                phase: if waits {
                    Phase::Waiting
                } else {
                    Phase::Up(1)
                },
                presses: 0,
                stopped: None,
            },
            waited: 0,
            after_matched: None,
            until_matched: None,
        }
    }

    /// Whether a line is the one the presses wait for, and the one they stop at.
    pub open spec fn begins(&self, kind: Seq<char>, line: &Line) -> bool {
        self.args.after matches Some(after) && after.sees(kind, line)
    }

    pub open spec fn ends(&self, kind: Seq<char>, line: &Line) -> bool {
        self.args.until matches Some(until) && until.sees(kind, line)
    }

    /// A line on a feed, `elapsed` milliseconds after the call.
    pub fn line(&mut self, kind: &str, line: Line, elapsed: u64) -> (stroke: Stroke)
        requires
            old(self).valid(),
            old(self).at.stopped is None,
        ensures
            final(self).valid(),
            final(self).args == old(self).args,
            (final(self).at, stroke) == old(self).at.heard(
                old(self).begins(kind@, &line),
                old(self).ends(kind@, &line),
                old(self).args.hold,
            ),
            final(self).waited == if stroke == Stroke::Press {
                elapsed
            } else {
                old(self).waited
            },
            final(self).after_matched == if stroke == Stroke::Press {
                Some(line.shown)
            } else {
                old(self).after_matched
            },
            final(self).until_matched == if stroke == Stroke::Finish {
                Some(line.shown)
            } else {
                old(self).until_matched
            },
    {
        match self.at.phase {
            Phase::Waiting => {
                let begins: bool = match &self.args.after {
                    Some(after) => after.matches(kind, &line),
                    None => false,
                };
                if begins {
                    self.waited = elapsed;
                    self.after_matched = Some(line.shown);
                    self.at.presses = self.at.presses + 1;
                    self.at.phase = Phase::Down(self.args.hold);
                    Stroke::Press
                } else {
                    Stroke::Nothing
                }
            },
            _ => {
                let ends: bool = match &self.args.until {
                    Some(until) => until.matches(kind, &line),
                    None => false,
                };
                if ends {
                    self.until_matched = Some(line.shown);
                    self.at.stopped = Some(Stopped::Until);
                    Stroke::Finish
                } else {
                    Stroke::Nothing
                }
            },
        }
    }

    /// A tick of the client, and whether the server was told of the key as it is.
    pub fn tick(&mut self, arrived: bool) -> (stroke: Stroke)
        requires
            old(self).valid(),
            old(self).at.stopped is None,
        ensures
            final(self).valid(),
            final(self).args == old(self).args,
            final(self).waited == old(self).waited,
            final(self).after_matched == old(self).after_matched,
            final(self).until_matched == old(self).until_matched,
            (final(self).at, stroke) == old(self).at.ticked(
                arrived,
                old(self).args.repeat,
                old(self).args.hold,
                old(self).args.interval,
            ),
    {
        match self.at.phase {
            Phase::Waiting => Stroke::Nothing,
            Phase::Down(left) => {
                if !arrived {
                    Stroke::Nothing
                } else if left > 1 {
                    self.at.phase = Phase::Down(left - 1);
                    Stroke::Nothing
                } else if self.at.presses == self.args.repeat {
                    self.at.stopped = Some(Stopped::Done);
                    Stroke::Finish
                } else {
                    self.at.phase = Phase::Up(self.args.interval);
                    Stroke::Release
                }
            },
            Phase::Up(left) => {
                if !arrived {
                    Stroke::Nothing
                } else if left > 1 {
                    self.at.phase = Phase::Up(left - 1);
                    Stroke::Nothing
                } else {
                    self.at.presses = self.at.presses + 1;
                    self.at.phase = Phase::Down(self.args.hold);
                    Stroke::Press
                }
            },
        }
    }

    /// The time is up: a failure where nothing was ever pressed, and else the end of the presses.
    pub fn deadline(&mut self) -> (r: Result<Stroke, Failure>)
        requires
            old(self).valid(),
            old(self).at.stopped is None,
        ensures
            final(self).valid(),
            final(self).args == old(self).args,
            final(self).waited == old(self).waited,
            final(self).after_matched == old(self).after_matched,
            final(self).until_matched == old(self).until_matched,
            match r {
                Err(failure) => {
                    &&& old(self).at.phase == Phase::Waiting
                    &&& final(self).at == old(self).at
                    &&& old(self).args.after matches Some(after) && failure@ == unmatched(
                        after@,
                        old(self).args.timeout,
                        old(self).args.key,
                    )
                },
                Ok(stroke) => {
                    &&& old(self).at.phase != Phase::Waiting
                    &&& stroke == Stroke::Finish
                    &&& final(self).at == (Progress {
                        stopped: Some(Stopped::Timeout),
                        ..old(self).at
                    })
                },
            },
    {
        if self.at.phase == Phase::Waiting {
            match &self.args.after {
                Some(after) => {
                    let mut message = cat7(
                        "nothing on the ",
                        after.feed.as_str(),
                        " feed matched /",
                        after.source.as_str(),
                        "/ within ",
                        decimal(self.args.timeout).as_str(),
                        "ms, so ",
                    );
                    message.append(self.args.key.name());
                    message.append(" was never pressed.");
                    return Err(Failure::refused("NO_MATCH", message));
                },
                None => {},
            }
        }
        self.at.stopped = Some(Stopped::Timeout);
        Ok(Stroke::Finish)
    }

    /// What the presses came to, with the hotbar slot that is selected now.
    pub open spec fn report(&self, selected: u8) -> Doc {
        let after = match self.args.after {
            Some(after) => described_watch(
                after@,
                match self.after_matched {
                    Some(line) => Some(line@),
                    None => None,
                },
            ).with("waitedMs"@, Doc::number(self.waited as int)),
            None => Doc::Null,
        };
        let until = match self.args.until {
            Some(until) => described_watch(
                until@,
                match self.until_matched {
                    Some(line) => Some(line@),
                    None => None,
                },
            ),
            None => Doc::Null,
        };
        Doc::object().with("key"@, Doc::Text(key_name(self.args.key))).with(
            "slot"@,
            match self.args.slot {
                Some(slot) => Doc::number(slot as int),
                None => Doc::Null,
            },
        ).with("presses"@, Doc::number(self.at.presses as int)).with(
            "repeat"@,
            Doc::number(self.args.repeat as int),
        ).with("holdTicks"@, Doc::number(self.args.hold as int)).with(
            "intervalTicks"@,
            Doc::number(self.args.interval as int),
        ).with("after"@, after).with("until"@, until).with(
            "stopped"@,
            Doc::Text(stopped_word(self.at.stopped)),
        ).with("selectedSlot"@, Doc::number(selected as int))
    }

    pub fn press(&self, selected: u8) -> (r: Json)
        ensures
            r@ == self.report(selected),
    {
        let after = match &self.args.after {
            Some(after) => after.describe(
                match &self.after_matched {
                    Some(line) => Some(line.as_str()),
                    None => None,
                },
            ).with("waitedMs", Json::count(self.waited)),
            None => Json::Null,
        };
        let until = match &self.args.until {
            Some(until) => until.describe(
                match &self.until_matched {
                    Some(line) => Some(line.as_str()),
                    None => None,
                },
            ),
            None => Json::Null,
        };
        let slot = match self.args.slot {
            Some(slot) => Json::count(slot as u64),
            None => Json::Null,
        };
        let stopped: &str = match self.at.stopped {
            Some(Stopped::Until) => "until",
            Some(Stopped::Timeout) => "timeout",
            _ => "done",
        };
        Json::object().with("key", Json::text(self.args.key.name())).with("slot", slot).with(
            "presses",
            Json::count(self.at.presses as u64),
        ).with("repeat", Json::count(self.args.repeat as u64)).with(
            "holdTicks",
            Json::count(self.args.hold as u64),
        ).with("intervalTicks", Json::count(self.args.interval as u64)).with("after", after).with(
            "until",
            until,
        ).with("stopped", Json::text(stopped)).with("selectedSlot", Json::count(selected as u64))
    }

    /// What press-input answers.
    pub fn answer(&self, selected: u8) -> (r: Answer)
        ensures
            r@ == AnswerView::full(
                "pressed "@ + key_name(self.args.key) + " "@ + dec(self.at.presses as int)
                    + " of "@ + dec(self.args.repeat as int) + " time(s), "@ + stopped_word(
                    self.at.stopped,
                ),
                self.report(selected),
            ),
    {
        let stopped: &str = match self.at.stopped {
            Some(Stopped::Until) => "until",
            Some(Stopped::Timeout) => "timeout",
            _ => "done",
        };
        let mut summary = cat7(
            "pressed ",
            self.args.key.name(),
            " ",
            decimal(self.at.presses as u64).as_str(),
            " of ",
            decimal(self.args.repeat as u64).as_str(),
            " time(s), ",
        );
        summary.append(stopped);
        Answer::data(summary, self.press(selected))
    }
}

/// What is said of presses whose line never came.
pub open spec fn unmatched(after: WatchView, timeout: u64, key: Key) -> FailureView {
    FailureView::refusal(
        "NO_MATCH"@,
        "nothing on the "@ + after.feed + " feed matched /"@ + after.source + "/ within "@ + dec(
            timeout as int,
        ) + "ms, so "@ + key_name(key) + " was never pressed."@,
    )
}

pub open spec fn stopped_word(stopped: Option<Stopped>) -> Seq<char> {
    match stopped {
        Some(Stopped::Until) => "until"@,
        Some(Stopped::Timeout) => "timeout"@,
        _ => "done"@,
    }
}

/// A key is never pressed more often than was asked for, and presses that are done are all of them.
pub proof fn presses_stay_within_what_was_asked(
    at: Progress,
    arrived: bool,
    repeat: u32,
    hold: u32,
    interval: u32,
)
    requires
        at.valid(repeat),
        at.stopped is None,
    ensures
        ({
            let (after, stroke) = at.ticked(arrived, repeat, hold, interval);
            &&& after.valid(repeat)
            &&& after.presses <= repeat
            &&& after.presses == at.presses + if stroke == Stroke::Press {
                1int
            } else {
                0int
            }
            &&& after.stopped == Some(Stopped::Done) ==> after.presses == repeat
        }),
{
}

/// Where a run of presses stands after ticks that the server heard of.
pub open spec fn after_ticks(at: Progress, n: nat, repeat: u32, hold: u32, interval: u32) -> Progress
    decreases n,
{
    if n == 0 || at.stopped is Some {
        at
    } else {
        after_ticks(
            at.ticked(true, repeat, hold, interval).0,
            (n - 1) as nat,
            repeat,
            hold,
            interval,
        )
    }
}

/// How many ticks are left until the presses are done, when each one counts.
pub open spec fn ticks_left(at: Progress, repeat: u32, hold: u32, interval: u32) -> int {
    let more = repeat - at.presses;
    let h = at_least_one(hold);
    let w = at_least_one(interval);
    match at.phase {
        Phase::Waiting => 0,
        Phase::Down(left) => at_least_one(left) + more * (h + w),
        Phase::Up(left) => at_least_one(left) + h + (more - 1) * (h + w),
    }
}

pub open spec fn at_least_one(n: u32) -> int {
    if n > 1 {
        n as int
    } else {
        1
    }
}

/// Presses that nothing holds up come to their end: each tick that counts brings them one nearer.
pub proof fn presses_come_to_an_end(at: Progress, n: nat, repeat: u32, hold: u32, interval: u32)
    requires
        at.valid(repeat),
        at.stopped is None,
        at.phase != Phase::Waiting,
        n >= ticks_left(at, repeat, hold, interval),
    ensures
        after_ticks(at, n, repeat, hold, interval).stopped == Some(Stopped::Done),
        after_ticks(at, n, repeat, hold, interval).presses == repeat,
    decreases n,
{
    let h = at_least_one(hold);
    let w = at_least_one(interval);
    let more = repeat - at.presses;
    let (next, _) = at.ticked(true, repeat, hold, interval);
    assert(more * (h + w) >= 0) by (nonlinear_arith)
        requires
            more >= 0,
            h >= 1,
            w >= 1,
    ;
    if at.phase is Up {
        assert((more - 1) * (h + w) >= 0) by (nonlinear_arith)
            requires
                more >= 1,
                h >= 1,
                w >= 1,
        ;
    }
    if next.stopped is None {
        assert(more * (h + w) == (more - 1) * (h + w) + h + w) by (nonlinear_arith);
        presses_come_to_an_end(next, (n - 1) as nat, repeat, hold, interval);
    } else {
        assert(after_ticks(next, (n - 1) as nat, repeat, hold, interval) == next);
    }
}

/// Whether a break may still be on its way, or a key not told of, so that another tick is waited.
pub fn unsettled(key: Key, arrived: bool) -> (r: bool)
    ensures
        r == (key == Key::Attack || !arrived),
{
    key == Key::Attack || !arrived
}

/// What the client knows that a key's press depends on.
#[derive(Clone, Copy)]
pub struct Stance {
    pub crouching: bool,
    pub sprinting: bool,
    pub selected: u8,
    pub hand_empty: bool,
}

/// The movement flags the server was last sent.
#[derive(Clone, Copy)]
pub struct SentInput {
    pub jump: bool,
    pub shift: bool,
    pub sprint: bool,
}

/// What is sent, or set on the client, for a key.
#[derive(Clone, Copy, Debug, PartialEq, Eq, Structural)]
pub enum Deed {
    Nothing,
    SetJumping(bool),
    SetCrouching(bool),
    SetSprinting(bool),
    UseItem,
    Attack,
    Select(u8),
    SwapOffhand,
    /// Drop the held item, with a swing only when something goes.
    Drop { swing: bool },
    ReleaseUse,
    /// Stop breaking, with the button let go of as well.
    LetGoOfMining,
    StopMining,
}

/// The key being pressed, and what letting go of it undoes.
#[derive(Clone, Copy, Debug, PartialEq, Eq, Structural)]
pub struct Keys {
    pub key: Key,
    pub slot: u8,
    pub down: bool,
    /// A crouch or a sprint that was on before the press, which letting go of it must not end.
    pub before: bool,
    pub held_ticks: u32,
    pub miss_ticks: u32,
}

impl Keys {
    pub fn new(key: Key, slot: u8) -> (r: Keys)
        ensures
            r == (Keys { key, slot, down: false, before: false, held_ticks: 0, miss_ticks: 0 }),
    {
        Keys { key, slot, down: false, before: false, held_ticks: 0, miss_ticks: 0 }
    }

    /// What a press sends. The client's own arithmetic for a wheel notch: up moves to the slot on
    /// the left, and it wraps.
    pub open spec fn pressed(self, now: Stance) -> Deed {
        match self.key {
            Key::Jump => Deed::SetJumping(true),
            Key::Sneak => Deed::SetCrouching(true),
            Key::Sprint => Deed::SetSprinting(true),
            Key::Use => Deed::UseItem,
            Key::Attack => Deed::Attack,
            Key::Hotbar => Deed::Select(self.slot),
            Key::ScrollUp => Deed::Select(((now.selected + 8) % 9) as u8),
            Key::ScrollDown => Deed::Select(((now.selected + 1) % 9) as u8),
            Key::SwapOffhand => Deed::SwapOffhand,
            Key::Drop => Deed::Drop { swing: !now.hand_empty },
        }
    }

    pub fn press(&mut self, now: Stance) -> (r: Deed)
        ensures
            r == old(self).pressed(now),
            *final(self) == (Keys {
                down: true,
                held_ticks: 0,
                before: match old(self).key {
                    Key::Sneak => now.crouching,
                    Key::Sprint => now.sprinting,
                    _ => old(self).before,
                },
                ..*old(self)
            }),
    {
        let deed = match self.key {
            Key::Jump => Deed::SetJumping(true),
            Key::Sneak => {
                self.before = now.crouching;
                Deed::SetCrouching(true)
            },
            Key::Sprint => {
                self.before = now.sprinting;
                Deed::SetSprinting(true)
            },
            Key::Use => Deed::UseItem,
            Key::Attack => Deed::Attack,
            Key::Hotbar => Deed::Select(self.slot),
            Key::ScrollUp => Deed::Select(((now.selected as u32 + 8) % 9) as u8),
            Key::ScrollDown => Deed::Select(((now.selected as u32 + 1) % 9) as u8),
            Key::SwapOffhand => Deed::SwapOffhand,
            Key::Drop => Deed::Drop { swing: !now.hand_empty },
        };
        self.down = true;
        self.held_ticks = 0;
        deed
    }

    /// Every tick, pressed or not: the miss cooldown runs down either way, and a held use goes again
    /// every few ticks unless one is still going.
    pub fn tick(&mut self, using: bool) -> (r: Deed)
        requires
            old(self).held_ticks < u32::MAX,
        ensures
            *final(self) == (Keys {
                miss_ticks: if old(self).miss_ticks == 0 {
                    0
                } else {
                    (old(self).miss_ticks - 1) as u32
                },
                held_ticks: if old(self).down && old(self).key == Key::Use {
                    (old(self).held_ticks + 1) as u32
                } else {
                    old(self).held_ticks
                },
                ..*old(self)
            }),
            r == if !old(self).down && old(self).key == Key::Attack {
                Deed::StopMining
            } else if old(self).down && old(self).key == Key::Use && (old(self).held_ticks + 1)
                % USE_DELAY_TICKS as int == 0 && !using {
                Deed::UseItem
            } else {
                Deed::Nothing
            },
    {
        self.miss_ticks =
        if self.miss_ticks == 0 {
            0
        } else {
            self.miss_ticks - 1
        };
        if !self.down && self.key == Key::Attack {
            return Deed::StopMining;
        }
        if self.down && self.key == Key::Use {
            self.held_ticks = self.held_ticks + 1;
            if self.held_ticks % USE_DELAY_TICKS == 0 && !using {
                return Deed::UseItem;
            }
        }
        Deed::Nothing
    }

    /// What letting go sends.
    pub open spec fn let_go(self) -> Deed {
        if !self.down {
            Deed::Nothing
        } else {
            match self.key {
                Key::Jump => Deed::SetJumping(false),
                Key::Sneak => Deed::SetCrouching(self.before),
                Key::Sprint => Deed::SetSprinting(self.before),
                Key::Use => Deed::ReleaseUse,
                Key::Attack => Deed::LetGoOfMining,
                _ => Deed::Nothing,
            }
        }
    }

    /// Let go of the key, where it is down.
    ///
    /// The client tells the server it let go of an item it had started using: a drawn bow, food. A
    /// release the server has nothing in use for is a no-op there, whereas one withheld leaves the
    /// bow drawn, so every use is let go of. Let go before a block broke, the client tells the server
    /// it stopped.
    pub fn release(&mut self) -> (r: Deed)
        ensures
            r == old(self).let_go(),
            *final(self) == (Keys { down: false, ..*old(self) }),
    {
        let was: bool = self.down;
        self.down = false;
        if !was {
            return Deed::Nothing;
        }
        match self.key {
            Key::Jump => Deed::SetJumping(false),
            Key::Sneak => Deed::SetCrouching(self.before),
            Key::Sprint => Deed::SetSprinting(self.before),
            Key::Use => Deed::ReleaseUse,
            Key::Attack => Deed::LetGoOfMining,
            _ => Deed::Nothing,
        }
    }

    /// Whether the input the server was last sent agrees with the key. Nothing sent yet is every key
    /// up.
    ///
    /// The movement flags are sent on a tick of their own, so a key held for one tick here can go
    /// down and up again between two of those and never reach the server. The other keys are packets
    /// sent the moment they are pressed.
    pub fn arrived(&self, sent: Option<SentInput>) -> (r: bool)
        ensures
            r == self.agrees(sent),
    {
        let wanted: bool = self.down || self.before;
        let sent = match sent {
            Some(sent) => sent,
            None => SentInput { jump: false, shift: false, sprint: false },
        };
        match self.key {
            Key::Jump => sent.jump == self.down,
            Key::Sneak => sent.shift == wanted,
            Key::Sprint => sent.sprint == wanted,
            _ => true,
        }
    }

    pub open spec fn agrees(&self, sent: Option<SentInput>) -> bool {
        let sent = match sent {
            Some(sent) => sent,
            None => SentInput { jump: false, shift: false, sprint: false },
        };
        match self.key {
            Key::Jump => sent.jump == self.down,
            Key::Sneak => sent.shift == (self.down || self.before),
            Key::Sprint => sent.sprint == (self.down || self.before),
            _ => true,
        }
    }

    /// A left-click: a hit on an entity, or a swing at the air with a survival client's miss
    /// cooldown.
    ///
    /// A block is not hit here. Holding the button is what breaks one, for as long as it stays on. A
    /// hitbox that the client's own pick passes through is hit, not the block behind it mined.
    pub fn attack(&mut self, aimed: bool, hit: Hit, creative: bool) -> (r: Swing)
        ensures
            r.mine == !aimed,
            r.hit == if old(self).miss_ticks > 0 {
                Blow::Nothing
            } else if aimed {
                Blow::Aimed
            } else {
                match hit {
                    Hit::Entity => Blow::Hit,
                    Hit::Block => Blow::Nothing,
                    Hit::Miss => Blow::Air,
                }
            },
            *final(self) == (Keys {
                miss_ticks: if r.hit == Blow::Air && !creative {
                    MISS_TICKS
                } else {
                    old(self).miss_ticks
                },
                ..*old(self)
            }),
    {
        let mine: bool = !aimed;
        if self.miss_ticks > 0 {
            return Swing { mine, hit: Blow::Nothing };
        }
        if aimed {
            return Swing { mine, hit: Blow::Aimed };
        }
        match hit {
            Hit::Entity => Swing { mine, hit: Blow::Hit },
            Hit::Block => Swing { mine, hit: Blow::Nothing },
            Hit::Miss => {
                if !creative {
                    self.miss_ticks = MISS_TICKS;
                }
                Swing { mine, hit: Blow::Air }
            },
        }
    }
}

/// Letting go of a crouch or a sprint leaves what was on before the press.
pub proof fn letting_go_restores(keys: Keys, now: Stance)
    requires
        keys.key == Key::Sneak || keys.key == Key::Sprint,
    ensures
        ({
            let held = Keys {
                down: true,
                held_ticks: 0,
                before: if keys.key == Key::Sneak {
                    now.crouching
                } else {
                    now.sprinting
                },
                ..keys
            };
            held.let_go() == if keys.key == Key::Sneak {
                Deed::SetCrouching(now.crouching)
            } else {
                Deed::SetSprinting(now.sprinting)
            }
        }),
{
}

/// A notch up and a notch down of the wheel end on the slot they began on.
pub proof fn scrolling_up_and_down_comes_back(keys: Keys, now: Stance)
    requires
        now.selected < 9,
    ensures
        ({
            let up = (Keys { key: Key::ScrollUp, ..keys }).pressed(now);
            up matches Deed::Select(slot) && (Keys { key: Key::ScrollDown, ..keys }).pressed(
                (Stance { selected: slot, ..now }),
            ) == Deed::Select(now.selected)
        }),
{
}

/// What the client's own pick hits.
#[derive(Clone, Copy, Debug, PartialEq, Eq, Structural)]
pub enum Hit {
    Entity,
    Block,
    /// Nothing within reach.
    Miss,
}

#[derive(Clone, Copy, Debug, PartialEq, Eq, Structural)]
pub enum Blow {
    Nothing,
    /// The entity whose hitbox is aimed at.
    Aimed,
    /// The entity the pick hits.
    Hit,
    /// A swing at the air.
    Air,
}

/// A left-click: whether the button mines, and what is hit.
#[derive(Clone, Copy, Debug, PartialEq, Eq, Structural)]
pub struct Swing {
    pub mine: bool,
    pub hit: Blow,
}

/// What a right-click comes to.
#[derive(Clone, Copy, Debug, PartialEq, Eq, Structural)]
pub enum Click {
    /// Interact with the entity whose hitbox is aimed at.
    Aimed,
    /// Interact with the entity the pick hits.
    Entity,
    /// Use the item on the block, which takes the click.
    OnBlock,
    /// Use the item on the block, and then in the air.
    OnBlockAndAir,
    /// Use the item in the air.
    InAir,
}

/// What is in the hands, and whether the player crouches, as a right-click on a block depends on it.
#[derive(Clone, Copy)]
pub struct Hands {
    pub crouching: bool,
    pub main_empty: bool,
    pub offhand_empty: bool,
    /// A block goes by the name of the item in the main hand.
    pub places_block: bool,
}

/// Whether a block takes a right-click from these hands: it does something with the click, and is
/// not skipped by a player who crouches with something in hand.
pub open spec fn block_takes(hands: Hands, block: Option<Seq<char>>) -> bool {
    &&& !(hands.crouching && (!hands.main_empty || !hands.offhand_empty))
    &&& block matches Some(name) && is_interactive(name)
}

/// What a right-click comes to: at the hitbox that is aimed at, else at what the pick hits.
pub open spec fn click_of(aimed: bool, hit: Hit, hands: Hands, block: Option<Seq<char>>) -> Click {
    if aimed {
        Click::Aimed
    } else {
        match hit {
            Hit::Entity => Click::Entity,
            Hit::Miss => Click::InAir,
            Hit::Block => if block_takes(hands, block) || hands.main_empty || hands.places_block {
                Click::OnBlock
            } else {
                Click::OnBlockAndAir
            },
        }
    }
}

/// A right-click at what the bot is looking at, with the main hand, as the client makes one.
///
/// On a block the client asks the block first and the item after. A block that does something
/// with the click -- a chest opening, a door swinging, a button going down -- takes it, and the
/// item is not used; a block that does nothing passes it on, and the item's own use on a block
/// comes next, which for a block item is placing it. Only a click nothing took uses the item in
/// the air as well, which is how a rod cast at the ground still casts. Crouching with something
/// in hand skips the block, the way it lets a player place against a chest.
///
/// The game decides that on the client from its own block and item code, so the blocks a click
/// opens or toggles whatever is in hand are named here, and an item is taken to be placed when a
/// block goes by its name.
pub fn use_item(aimed: bool, hit: Hit, hands: Hands, block: Option<&str>) -> (r: Click)
    ensures
        r == click_of(
            aimed,
            hit,
            hands,
            match block {
                Some(block) => Some(block@),
                None => None,
            },
        ),
{
    if aimed {
        return Click::Aimed;
    }
    match hit {
        Hit::Entity => Click::Entity,
        Hit::Miss => Click::InAir,
        Hit::Block => {
            let has_items: bool = !hands.main_empty || !hands.offhand_empty;
            let answers: bool = match block {
                Some(name) => interactive(name),
                None => false,
            };
            let block_took_it: bool = !(hands.crouching && has_items) && answers;
            if block_took_it || hands.main_empty || hands.places_block {
                Click::OnBlock
            } else {
                Click::OnBlockAndAir
            }
        },
    }
}

/// What the names of the blocks that take a right-click have in them.
pub open spec fn taken_by() -> Seq<Seq<char>> {
    seq![
        "chest"@,
        "barrel"@,
        "shulker_box"@,
        "furnace"@,
        "smoker"@,
        "hopper"@,
        "dispenser"@,
        "dropper"@,
        "crafter"@,
        "brewing_stand"@,
        "crafting_table"@,
        "anvil"@,
        "enchanting_table"@,
        "grindstone"@,
        "loom"@,
        "stonecutter"@,
        "cartography_table"@,
        "smithing_table"@,
        "lectern"@,
        "beacon"@,
        "door"@,
        "trapdoor"@,
        "fence_gate"@,
        "button"@,
        "lever"@,
        "_bed"@,
        "bell"@,
        "repeater"@,
        "comparator"@,
        "daylight_detector"@,
        "note_block"@,
        "cake"@,
        "jukebox"@,
        "respawn_anchor"@,
        "command_block"@,
        "sign"@,
        "structure_block"@,
        "jigsaw"@,
    ]
}

/// Whether a block takes a right-click whatever is in hand.
pub open spec fn is_interactive(name: Seq<char>) -> bool {
    &&& !begins(name, "minecraft:iron_"@)
    &&& exists|i: int| 0 <= i < taken_by().len() && occurs(name, #[trigger] taken_by()[i])
}

/// A block that takes a right-click whatever is in hand: it opens, toggles, rings or is sat in, and
/// the client uses nothing after it. Iron doors and trapdoors open only by redstone and pass it on.
pub fn interactive(name: &str) -> (r: bool)
    ensures
        r == is_interactive(name@),
{
    if starts_with(name, "minecraft:iron_") {
        return false;
    }
    let parts: [&'static str; 38] = [
        "chest",
        "barrel",
        "shulker_box",
        "furnace",
        "smoker",
        "hopper",
        "dispenser",
        "dropper",
        "crafter",
        "brewing_stand",
        "crafting_table",
        "anvil",
        "enchanting_table",
        "grindstone",
        "loom",
        "stonecutter",
        "cartography_table",
        "smithing_table",
        "lectern",
        "beacon",
        "door",
        "trapdoor",
        "fence_gate",
        "button",
        "lever",
        "_bed",
        "bell",
        "repeater",
        "comparator",
        "daylight_detector",
        "note_block",
        "cake",
        "jukebox",
        "respawn_anchor",
        "command_block",
        "sign",
        "structure_block",
        "jigsaw",
    ];
    proof {
        assert(literals(parts@) =~= taken_by());
    }
    let mut i: usize = 0;
    while i < 38
        invariant
            i <= 38,
            !begins(name@, "minecraft:iron_"@),
            literals(parts@) == taken_by(),
            forall|k: int| 0 <= k < i ==> !occurs(name@, #[trigger] taken_by()[k]),
        decreases 38 - i,
    {
        proof {
            assert(literals(parts@)[i as int] == parts@[i as int]@);
        }
        if contains(name, parts[i]) {
            proof {
                assert(occurs(name@, taken_by()[i as int]));
            }
            return true;
        }
        i += 1;
    }
    false
}

/// Each key goes by its own name, and no other name is a key.
pub proof fn each_key_has_its_own_name(name: Seq<char>)
    ensures
        key_of("jump"@) == Some(Key::Jump),
        key_of("sneak"@) == Some(Key::Sneak),
        key_of("sprint"@) == Some(Key::Sprint),
        key_of("use"@) == Some(Key::Use),
        key_of("attack"@) == Some(Key::Attack),
        key_of("hotbar"@) == Some(Key::Hotbar),
        key_of("scroll-up"@) == Some(Key::ScrollUp),
        key_of("scroll-down"@) == Some(Key::ScrollDown),
        key_of("swap-offhand"@) == Some(Key::SwapOffhand),
        key_of("drop"@) == Some(Key::Drop),
        key_of(name) matches Some(key) ==> key_name(key) == name,
{
    reveal_strlit("jump");
    reveal_strlit("sneak");
    reveal_strlit("sprint");
    reveal_strlit("use");
    reveal_strlit("attack");
    reveal_strlit("hotbar");
    reveal_strlit("scroll-up");
    reveal_strlit("scroll-down");
    reveal_strlit("swap-offhand");
    reveal_strlit("drop");
    assert("jump"@.len() == 4);
    assert("sneak"@.len() == 5);
    assert("sprint"@.len() == 6);
    assert("use"@.len() == 3);
    assert("attack"@.len() == 6);
    assert("hotbar"@.len() == 6);
    assert("scroll-up"@.len() == 9);
    assert("scroll-down"@.len() == 11);
    assert("swap-offhand"@.len() == 12);
    assert("drop"@.len() == 4);
    assert("jump"@[0] != "drop"@[0]);
    assert("sprint"@[0] != "attack"@[0]);
    assert("sprint"@[0] != "hotbar"@[0]);
    assert("attack"@[0] != "hotbar"@[0]);
}

/// What is asked of a press is what was given: how often, how long, how far apart and for how long at
/// most, each with its own fallback.
pub proof fn a_press_is_what_was_given(args: Doc, key: Key, slot: Option<u8>, made: PressArgsView)
    requires
        press_rest(args, key, slot) == Ok::<PressArgsView, FailureView>(made),
    ensures
        made.key == key,
        key == Key::Hotbar ==> made.slot == slot,
        key != Key::Hotbar ==> made.slot is None,
        args.at("holdTicks"@) is None ==> made.hold == 1,
        args.int_at("holdTicks"@) matches Some(n) ==> (0 <= n <= u32::MAX ==> made.hold == n),
        args.at("repeat"@) is None ==> made.repeat == 1,
        args.int_at("repeat"@) matches Some(n) ==> (0 <= n <= u32::MAX ==> made.repeat == n),
        args.at("intervalTicks"@) is None ==> made.interval == 1,
        args.int_at("intervalTicks"@) matches Some(n) ==> (0 <= n <= u32::MAX ==> made.interval == n),
        args.at("timeoutMs"@) is None ==> made.timeout == 10_000,
        args.int_at("timeoutMs"@) matches Some(n) ==> (0 <= n ==> made.timeout == n),
        args.at("after"@) is None ==> made.after is None,
        args.at("until"@) is None ==> made.until is None,
        args.at("after"@) matches Some(after) ==> (after != Doc::Null ==> (made.after matches Some(watch)
            && after.text_at("pattern"@) == Some(watch.source) && after.text_at("feed"@) == Some(
            watch.feed,
        ))),
        args.at("until"@) matches Some(until) ==> (until != Doc::Null ==> (made.until matches Some(watch)
            && until.text_at("pattern"@) == Some(watch.source) && until.text_at("feed"@) == Some(
            watch.feed,
        ))),
{
    if let Some(Doc::Number(number)) = args.at("holdTicks"@) {
        assert(number.int_of() is Some ==> number is Whole);
    }
}

/// A watch takes its pattern and its feed, and a pattern that is none is refused.
pub proof fn a_watch_is_what_was_given(wanted: Doc)
    ensures
        wanted.text_at("pattern"@) matches Some(source) ==> {
            &&& expression_fault(source) is Some ==> (watch_of(wanted) matches Err(failure)
                && failure.code == "BAD_PATTERN"@)
            &&& expression_fault(source) is None ==> (wanted.text_at("feed"@) matches Some(feed)
                ==> watch_of(wanted) == Ok::<WatchView, FailureView>(WatchView { feed, source }))
        },
        wanted.text_at("pattern"@) is None ==> watch_of(wanted) is Err,
{
}

/// What is held is what was read: the fields of a press one by one.
pub proof fn a_press_reads_as_it_is_held(args: PressArgs, watch: Watch)
    ensures
        args@.key == args.key && args@.slot == args.slot && args@.hold == args.hold && args@.repeat
            == args.repeat && args@.interval == args.interval && args@.timeout == args.timeout,
        args.after matches Some(after) ==> args@.after == Some(after@),
        args.until matches Some(until) ==> args@.until == Some(until@),
        args.after is None ==> args@.after is None,
        args.until is None ==> args@.until is None,
        watch@.feed == watch.feed@ && watch@.source == watch.source@,
{
}

/// A line is what a watch waits for where it is on its feed and its pattern is found in one of the
/// line's wordings.
pub proof fn a_watch_sees_its_own_feed(watch: Watch, kind: Seq<char>, line: &Line)
    ensures
        watch.sees(kind, line) ==> watch.feed@ == kind,
        watch.feed@ == kind && line.found(watch.source@) ==> watch.sees(kind, line),
        !line.found(watch.source@) ==> !watch.sees(kind, line),
{
}

/// The hotbar key needs a slot, and an unknown key is refused.
pub proof fn the_hotbar_key_needs_a_slot(args: Doc)
    ensures
        args.text_at("key"@) == Some("hotbar"@) && args.at("slot"@) is None ==> (press_args_of(args) matches Err(
            failure,
        ) && failure.code == "NO_SLOT"@),
        args.text_at("key"@) matches Some(name) ==> (key_of(name) is None ==> (press_args_of(args) matches Err(
            failure,
        ) && failure.code == "BAD_ARGS"@)),
        args.text_at("key"@) is None ==> press_args_of(args) is Err,
        args.text_at("key"@) matches Some(name) ==> (press_args_of(args) matches Ok(made) ==> key_of(
            name,
        ) == Some(made.key)),
        args.text_at("key"@) == Some("hotbar"@) ==> (args.int_at("slot"@) matches Some(n) ==> (0 <= n
            < 256 ==> (press_args_of(args) matches Ok(made) ==> made.slot == Some(n as u8)))),
{
    reveal_strlit("jump");
    reveal_strlit("sneak");
    reveal_strlit("sprint");
    reveal_strlit("use");
    reveal_strlit("attack");
    reveal_strlit("hotbar");
    reveal_strlit("scroll-up");
    reveal_strlit("scroll-down");
    reveal_strlit("swap-offhand");
    reveal_strlit("drop");
    assert("jump"@.len() == 4);
    assert("sneak"@.len() == 5);
    assert("sprint"@.len() == 6);
    assert("use"@.len() == 3);
    assert("attack"@.len() == 6);
    assert("hotbar"@.len() == 6);
    assert("scroll-up"@.len() == 9);
    assert("scroll-down"@.len() == 11);
    assert("swap-offhand"@.len() == 12);
    assert("drop"@.len() == 4);
    assert("jump"@[0] != "drop"@[0]);
    assert("sprint"@[0] != "attack"@[0]);
    assert("sprint"@[0] != "hotbar"@[0]);
    assert("attack"@[0] != "hotbar"@[0]);
}

/// A sequence of presses takes each its hold, and between two of them the interval, fifty
/// milliseconds a tick.
pub proof fn presses_take_their_time(repeat: u32, hold: u32, interval: u32)
    requires
        repeat >= 1,
    ensures
        sequence_of(1, hold, interval) == 50 * hold,
        sequence_of(2, hold, interval) == 50 * (2 * hold + interval),
        repeat < u32::MAX ==> sequence_of((repeat + 1) as u32, hold, interval) == sequence_of(
            repeat,
            hold,
            interval,
        ) + 50 * (hold + interval),
{
    assert((repeat + 1) * hold == repeat * hold + hold) by (nonlinear_arith);
    assert(repeat * interval == (repeat - 1) * interval + interval) by (nonlinear_arith);
}

/// A key that is down stays so for its hold and is then let go of, or the presses are done after the
/// last; one that is up stays so for the interval and is then pressed again.
pub proof fn a_tick_of_a_press(at: Progress, repeat: u32, hold: u32, interval: u32, left: u32)
    requires
        at.presses < u32::MAX,
    ensures
        ({
            let (next, stroke) = at.ticked(true, repeat, hold, interval);
            &&& at.ticked(false, repeat, hold, interval) == (at, Stroke::Nothing)
            &&& at.phase == Phase::Waiting ==> next == at && stroke == Stroke::Nothing
            &&& at.phase == Phase::Down(left) && left > 1 ==> next.phase == Phase::Down(
                (left - 1) as u32,
            ) && stroke == Stroke::Nothing && next.presses == at.presses
            &&& at.phase == Phase::Down(left) && left <= 1 && at.presses == repeat ==> stroke
                == Stroke::Finish && next.stopped == Some(Stopped::Done)
            &&& at.phase == Phase::Down(left) && left <= 1 && at.presses != repeat ==> stroke
                == Stroke::Release && next.phase == Phase::Up(interval)
            &&& at.phase == Phase::Up(left) && left > 1 ==> next.phase == Phase::Up((left - 1) as u32)
                && stroke == Stroke::Nothing
            &&& at.phase == Phase::Up(left) && left <= 1 ==> stroke == Stroke::Press && next.phase
                == Phase::Down(hold) && next.presses == at.presses + 1
        }),
        Progress::start(true).phase == Phase::Waiting,
        Progress::start(false).phase == Phase::Up(1),
        Progress::start(true).presses == 0,
{
}

/// The line that is waited for presses the key, and the line that ends it stops the presses.
pub proof fn a_line_starts_and_ends_the_presses(at: Progress, begins: bool, ends: bool, hold: u32)
    requires
        at.presses < u32::MAX,
    ensures
        ({
            let (next, stroke) = at.heard(begins, ends, hold);
            &&& at.phase == Phase::Waiting && begins ==> stroke == Stroke::Press && next.phase
                == Phase::Down(hold) && next.presses == at.presses + 1
            &&& at.phase == Phase::Waiting && !begins ==> stroke == Stroke::Nothing && next == at
            &&& at.phase != Phase::Waiting && ends ==> stroke == Stroke::Finish && next.stopped == Some(
                Stopped::Until,
            )
            &&& at.phase != Phase::Waiting && !ends ==> stroke == Stroke::Nothing && next == at
        }),
{
}

/// What is told of the presses: the key and its slot, how often it was pressed of how often it was
/// asked for, how long and how far apart, what was waited for, and why it stopped.
pub proof fn the_presses_are_told_as_they_went(press: Press, selected: u8)
    ensures
        ({
            let told = press.report(selected);
            &&& told.text_at("key"@) == Some(key_name(press.args.key))
            &&& press.args.slot matches Some(slot) ==> told.at("slot"@) == Some(
                Doc::number(slot as int),
            )
            &&& press.args.slot is None ==> told.at("slot"@) == Some(Doc::Null)
            &&& told.at("presses"@) == Some(Doc::number(press.at.presses as int))
            &&& told.at("repeat"@) == Some(Doc::number(press.args.repeat as int))
            &&& told.at("holdTicks"@) == Some(Doc::number(press.args.hold as int))
            &&& told.at("intervalTicks"@) == Some(Doc::number(press.args.interval as int))
            &&& told.at("selectedSlot"@) == Some(Doc::number(selected as int))
            &&& press.at.stopped == Some(Stopped::Until) ==> told.text_at("stopped"@) == Some("until"@)
            &&& press.at.stopped == Some(Stopped::Timeout) ==> told.text_at("stopped"@) == Some(
                "timeout"@,
            )
            &&& press.at.stopped == Some(Stopped::Done) ==> told.text_at("stopped"@) == Some("done"@)
            &&& press.args.after is None ==> told.at("after"@) == Some(Doc::Null)
            &&& press.args.until is None ==> told.at("until"@) == Some(Doc::Null)
            &&& press.args.after matches Some(after) ==> {
                let said = told.at("after"@)->0;
                &&& said.text_at("feed"@) == Some(after.feed@)
                &&& said.text_at("pattern"@) == Some(after.source@)
                &&& said.at("waitedMs"@) == Some(Doc::number(press.waited as int))
                &&& press.after_matched matches Some(line) ==> said.text_at("matched"@) == Some(line@)
            }
            &&& press.args.until matches Some(until) ==> {
                let said = told.at("until"@)->0;
                &&& said.text_at("feed"@) == Some(until.feed@)
                &&& said.text_at("pattern"@) == Some(until.source@)
                &&& press.until_matched is None ==> said.at("matched"@) == Some(Doc::Null)
                &&& press.until_matched matches Some(line) ==> said.text_at("matched"@) == Some(line@)
            }
        }),
{
    broadcast use {a_field_reads_back, an_empty_object_has_nothing};
    reveal_strlit("key");
    reveal_strlit("slot");
    reveal_strlit("presses");
    reveal_strlit("repeat");
    reveal_strlit("holdTicks");
    reveal_strlit("intervalTicks");
    reveal_strlit("after");
    reveal_strlit("until");
    reveal_strlit("stopped");
    reveal_strlit("selectedSlot");
    reveal_strlit("feed");
    reveal_strlit("pattern");
    reveal_strlit("matched");
    reveal_strlit("waitedMs");
    assert("key"@.len() == 3);
    assert("slot"@.len() == 4);
    assert("presses"@.len() == 7);
    assert("repeat"@.len() == 6);
    assert("holdTicks"@.len() == 9);
    assert("intervalTicks"@.len() == 13);
    assert("after"@.len() == 5);
    assert("until"@.len() == 5);
    assert("stopped"@.len() == 7);
    assert("selectedSlot"@.len() == 12);
    assert("feed"@.len() == 4);
    assert("pattern"@.len() == 7);
    assert("matched"@.len() == 7);
    assert("waitedMs"@.len() == 8);
    assert("slot"@[0] != "feed"@[0]);
    assert("presses"@[0] != "stopped"@[0]);
    assert("presses"@[1] != "pattern"@[1]);
    assert("presses"@[0] != "matched"@[0]);
    assert("after"@[0] != "until"@[0]);
    assert("stopped"@[0] != "pattern"@[0]);
    assert("stopped"@[0] != "matched"@[0]);
    assert("pattern"@[0] != "matched"@[0]);
}

/// What each key does when it is pressed, and what letting go of it undoes: a crouch or a sprint that
/// was on before stays on.
pub proof fn each_key_does_its_own(keys: Keys, now: Stance)
    requires
        now.selected < 9,
    ensures
        keys.key == Key::Jump ==> keys.pressed(now) == Deed::SetJumping(true),
        keys.key == Key::Sneak ==> keys.pressed(now) == Deed::SetCrouching(true),
        keys.key == Key::Sprint ==> keys.pressed(now) == Deed::SetSprinting(true),
        keys.key == Key::Use ==> keys.pressed(now) == Deed::UseItem,
        keys.key == Key::Attack ==> keys.pressed(now) == Deed::Attack,
        keys.key == Key::Hotbar ==> keys.pressed(now) == Deed::Select(keys.slot),
        keys.key == Key::ScrollDown && now.selected < 8 ==> keys.pressed(now) == Deed::Select(
            (now.selected + 1) as u8,
        ),
        keys.key == Key::ScrollDown && now.selected == 8 ==> keys.pressed(now) == Deed::Select(0),
        keys.key == Key::ScrollUp && now.selected > 0 ==> keys.pressed(now) == Deed::Select(
            (now.selected - 1) as u8,
        ),
        keys.key == Key::ScrollUp && now.selected == 0 ==> keys.pressed(now) == Deed::Select(8),
        keys.key == Key::SwapOffhand ==> keys.pressed(now) == Deed::SwapOffhand,
        keys.key == Key::Drop ==> keys.pressed(now) == (Deed::Drop { swing: !now.hand_empty }),
        !keys.down ==> keys.let_go() == Deed::Nothing,
        keys.down && keys.key == Key::Jump ==> keys.let_go() == Deed::SetJumping(false),
        keys.down && keys.key == Key::Sneak ==> keys.let_go() == Deed::SetCrouching(keys.before),
        keys.down && keys.key == Key::Sprint ==> keys.let_go() == Deed::SetSprinting(keys.before),
        keys.down && keys.key == Key::Use ==> keys.let_go() == Deed::ReleaseUse,
        keys.down && keys.key == Key::Attack ==> keys.let_go() == Deed::LetGoOfMining,
{
}

/// A key has reached the server where what it was last sent agrees with it; a key that is no movement
/// is sent the moment it is pressed.
pub proof fn a_key_has_reached_the_server(keys: Keys, sent: SentInput)
    ensures
        keys.key == Key::Jump ==> (keys.agrees(Some(sent)) <==> sent.jump == keys.down),
        keys.key == Key::Sneak ==> (keys.agrees(Some(sent)) <==> sent.shift == (keys.down
            || keys.before)),
        keys.key == Key::Sprint ==> (keys.agrees(Some(sent)) <==> sent.sprint == (keys.down
            || keys.before)),
        keys.key == Key::Use || keys.key == Key::Attack || keys.key == Key::Drop ==> keys.agrees(
            Some(sent),
        ),
        keys.key == Key::Jump ==> (keys.agrees(None) <==> !keys.down),
{
}

/// A right-click goes to what is aimed at first, then to an entity, a block or the air; a block takes it
/// unless the bot crouches with something in hand, and what the block passes on is used in the air too.
pub proof fn a_click_goes_to_what_takes_it(aimed: bool, hit: Hit, hands: Hands, block: Seq<char>)
    ensures
        aimed ==> click_of(aimed, hit, hands, Some(block)) == Click::Aimed,
        !aimed && hit == Hit::Entity ==> click_of(aimed, hit, hands, Some(block)) == Click::Entity,
        !aimed && hit == Hit::Miss ==> click_of(aimed, hit, hands, Some(block)) == Click::InAir,
        !aimed && hit == Hit::Block && is_interactive(block) && !hands.crouching ==> click_of(
            aimed,
            hit,
            hands,
            Some(block),
        ) == Click::OnBlock,
        !aimed && hit == Hit::Block && hands.main_empty ==> click_of(aimed, hit, hands, Some(block))
            == Click::OnBlock,
        !aimed && hit == Hit::Block && hands.places_block ==> click_of(aimed, hit, hands, Some(block))
            == Click::OnBlock,
        !aimed && hit == Hit::Block && !hands.main_empty && !hands.places_block && !is_interactive(
            block,
        ) ==> click_of(aimed, hit, hands, Some(block)) == Click::OnBlockAndAir,
        !aimed && hit == Hit::Block && !hands.main_empty && !hands.places_block && hands.crouching
            ==> click_of(aimed, hit, hands, Some(block)) == Click::OnBlockAndAir,
{
}

/// Doors, chests, buttons and the rest take a right-click, but those of iron, which open only by
/// redstone.
pub proof fn these_blocks_take_a_click(name: Seq<char>)
    ensures
        begins(name, "minecraft:iron_"@) ==> !is_interactive(name),
        !begins(name, "minecraft:iron_"@) && (occurs(name, "chest"@) || occurs(name, "barrel"@)
            || occurs(name, "furnace"@) || occurs(name, "crafting_table"@) || occurs(name, "door"@)
            || occurs(name, "fence_gate"@) || occurs(name, "button"@) || occurs(name, "lever"@)
            || occurs(name, "_bed"@) || occurs(name, "bell"@) || occurs(name, "anvil"@) || occurs(
            name,
            "lectern"@,
        ) || occurs(name, "beacon"@) || occurs(name, "note_block"@) || occurs(name, "sign"@)
            || occurs(name, "hopper"@)) ==> is_interactive(name),
{
    let all = taken_by();
    assert(all[0] == "chest"@ && all[1] == "barrel"@ && all[3] == "furnace"@ && all[5] == "hopper"@
        && all[10] == "crafting_table"@ && all[11] == "anvil"@ && all[18] == "lectern"@ && all[19]
        == "beacon"@ && all[20] == "door"@ && all[22] == "fence_gate"@ && all[23] == "button"@
        && all[24] == "lever"@ && all[25] == "_bed"@ && all[26] == "bell"@ && all[30]
        == "note_block"@ && all[35] == "sign"@);
}

/// A count of ticks reads in the singular for one.
pub proof fn a_count_of_ticks(count: u32)
    ensures
        ticks_of(1) == dec(1) + " "@ + "tick"@,
        count != 1 ==> ticks_of(count) == dec(count as int) + " "@ + "ticks"@,
        USE_DELAY_TICKS == 4,
        MISS_TICKS == 10,
        SETTLE_TICKS == 3,
        TICK_MS == 50,
{
}

/// The slot of a press is the one given, by its low byte, and none where none was.
pub proof fn the_slot_of_a_press(args: Doc, n: i64)
    ensures
        given(args, "slot"@) == Doc::Null ==> slot_of(args) == Ok::<Option<u8>, FailureView>(None),
        given(args, "slot"@) == Doc::Number(Number::Whole(n)) && 0 <= n < 256 ==> slot_of(args) == Ok::<
            Option<u8>,
            FailureView,
        >(Some(n as u8)),
        given(args, "slot"@) is Text ==> slot_of(args) is Err,
{
}

} // verus!
