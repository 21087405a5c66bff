//! The feeds: chat as it arrives, and what the client draws folded into runs.
use vstd::prelude::*;

use crate::bot::Bot;
use crate::json::{a_field_reads_back, an_empty_object_has_nothing, a_document_is_alike_itself, docs, Doc, Json};
use crate::table::Table;
use crate::words::same;

verus! {

/// How often a run that stays open goes on the wire again, in milliseconds.
pub const FLUSH_MS: u64 = 1000;

/// A run nothing has repeated for this many flushes has stopped showing, whatever the server meant.
pub const STALE_FLUSHES: u64 = 3;

/// A line drawn on a folded feed.
pub struct Line {
    pub kind: String,
    pub source: String,
    pub text: String,
    pub segments: Option<Json>,
    pub component: Json,
    pub data: Option<Json>,
}

pub struct LineView {
    pub kind: Seq<char>,
    pub source: Seq<char>,
    pub text: Seq<char>,
    pub segments: Option<Doc>,
    pub component: Doc,
    pub data: Option<Doc>,
}

impl View for Line {
    type V = LineView;

    open spec fn view(&self) -> LineView {
        LineView {
            kind: self.kind@,
            source: self.source@,
            text: self.text@,
            segments: doc_of(self.segments),
            component: self.component@,
            data: doc_of(self.data),
        }
    }
}

pub struct Run {
    pub seq: u64,
    pub kind: String,
    pub source: String,
    pub text: String,
    pub segments: Option<Json>,
    pub component: Json,
    pub data: Option<Json>,
    pub first_ts: u64,
    pub ts: u64,
    pub repeats: u64,
    pub sent_at: u64,
}

/// Whether two fields that may hold a document hold the same.
pub open spec fn alike_data(a: Option<Doc>, b: Option<Doc>) -> bool {
    match (a, b) {
        (Some(a), Some(b)) => a.alike(b),
        (None, None) => true,
        _ => false,
    }
}

pub struct RunView {
    pub seq: u64,
    pub kind: Seq<char>,
    pub source: Seq<char>,
    pub text: Seq<char>,
    pub segments: Option<Doc>,
    pub component: Doc,
    pub data: Option<Doc>,
    pub first_ts: u64,
    pub ts: u64,
    pub repeats: u64,
    pub sent_at: u64,
}

/// The document a field may hold.
pub open spec fn doc_of(value: Option<Json>) -> Option<Doc> {
    match value {
        Some(value) => Some(value@),
        None => None,
    }
}

impl View for Run {
    type V = RunView;

    open spec fn view(&self) -> RunView {
        RunView {
            seq: self.seq,
            kind: self.kind@,
            source: self.source@,
            text: self.text@,
            segments: doc_of(self.segments),
            component: self.component@,
            data: doc_of(self.data),
            first_ts: self.first_ts,
            ts: self.ts,
            repeats: self.repeats,
            sent_at: self.sent_at,
        }
    }
}

impl RunView {
    /// Whether a line is what this run shows already.
    pub open spec fn shows(self, line: LineView) -> bool {
        self.source == line.source && self.text == line.text && self.component.alike(line.component)
            && alike_data(self.data, line.data)
    }

    /// Whether the run has to go on the wire again.
    pub open spec fn due(self, now: u64) -> bool {
        now - self.sent_at >= FLUSH_MS
    }

    /// Whether the run has stopped showing.
    pub open spec fn stale(self, now: u64) -> bool {
        now - self.ts >= FLUSH_MS * STALE_FLUSHES
    }

    /// The run once its line was drawn again.
    pub open spec fn repeated(self, now: u64) -> RunView {
        RunView {
            repeats: (self.repeats + 1) as u64,
            ts: now,
            sent_at: if self.due(now) {
                now
            } else {
                self.sent_at
            },
            ..self
        }
    }

    /// The run as an event on the wire.
    pub open spec fn event(self, closed: bool) -> Doc {
        Doc::object().with("t"@, Doc::Text("event"@)).with("seq"@, Doc::number(self.seq as int)).with(
            "kind"@,
            Doc::Text(self.kind),
        ).with("source"@, Doc::Text(self.source)).with("text"@, Doc::Text(self.text)).with(
            "component"@,
            self.component,
        ).with("ts"@, Doc::number(self.ts as int)).with(
            "firstTs"@,
            Doc::number(self.first_ts as int),
        ).with("repeats"@, Doc::number(self.repeats as int)).with("closed"@, Doc::Bool(closed)).with_some(
            "segments"@,
            self.segments,
        ).with_some("data"@, self.data)
    }
}

/// A run that a line opens.
pub open spec fn opened(line: LineView, seq: u64, now: u64) -> RunView {
    RunView {
        seq,
        kind: line.kind,
        source: line.source,
        text: line.text,
        segments: line.segments,
        component: line.component,
        data: line.data,
        first_ts: now,
        ts: now,
        repeats: 1,
        sent_at: now,
    }
}

/// Whether a line can be drawn at a time. Where it is what its feed shows already, the clock stands
/// at or after the time the run was last sent, and one more repeat can be counted; where it is not,
/// there is a sequence number left.
pub open spec fn drawable(runs: Map<Seq<char>, RunView>, seq: u64, line: LineView, now: u64) -> bool {
    let kind = line.kind;
    if runs.dom().contains(kind) && runs[kind].shows(line) {
        runs[kind].sent_at <= now && runs[kind].repeats < u64::MAX
    } else {
        seq < u64::MAX
    }
}

/// Whether the runs can be flushed at a time: the clock stands at or after the time each was last
/// drawn, and, where a run still shows, at or after the time it was last sent.
pub open spec fn flushable(runs: Map<Seq<char>, RunView>, now: u64) -> bool {
    forall|k: Seq<char>| #[trigger]
        runs.dom().contains(k) ==> runs[k].ts <= now && (runs[k].stale(now) || runs[k].sent_at
            <= now)
}

/// What drawing a line does: the runs after it, the sequence number after it, and the events.
pub open spec fn folded(
    runs: Map<Seq<char>, RunView>,
    seq: u64,
    line: LineView,
    now: u64,
) -> (Map<Seq<char>, RunView>, u64, Seq<Doc>) {
    let kind = line.kind;
    if runs.dom().contains(kind) && runs[kind].shows(line) {
        let run = runs[kind].repeated(now);
        (
            runs.insert(kind, run),
            seq,
            if runs[kind].due(now) {
                seq![run.event(false)]
            } else {
                Seq::empty()
            },
        )
    } else {
        let run = opened(line, (seq + 1) as u64, now);
        (
            runs.insert(kind, run),
            (seq + 1) as u64,
            if runs.dom().contains(kind) {
                seq![runs[kind].event(true), run.event(false)]
            } else {
                seq![run.event(false)]
            },
        )
    }
}

fn same_data(a: &Option<Json>, b: &Option<Json>) -> (r: bool)
    ensures
        r == alike_data(doc_of(*a), doc_of(*b)),
{
    match (a, b) {
        (Some(a), Some(b)) => a.equals(b),
        (None, None) => true,
        _ => false,
    }
}

fn copied(value: &Option<Json>) -> (r: Option<Json>)
    ensures
        doc_of(r) == doc_of(*value),
{
    match value {
        Some(value) => Some(value.copy()),
        None => None,
    }
}

fn frame(run: &Run, closed: bool) -> (r: Json)
    ensures
        r@ == run@.event(closed),
{
    Json::object().with("t", Json::text("event")).with("seq", Json::count(run.seq)).with(
        "kind",
        Json::Text(run.kind.clone()),
    ).with("source", Json::Text(run.source.clone())).with("text", Json::Text(run.text.clone())).with(
        "component",
        run.component.copy(),
    ).with("ts", Json::count(run.ts)).with("firstTs", Json::count(run.first_ts)).with(
        "repeats",
        Json::count(run.repeats),
    ).with("closed", Json::Bool(closed)).with_some("segments", copied(&run.segments)).with_some(
        "data",
        copied(&run.data),
    )
}

fn repeats(run: &Run, line: &Line) -> (r: bool)
    ensures
        r == run@.shows(line@),
{
    same(run.source.as_str(), line.source.as_str()) && same(run.text.as_str(), line.text.as_str())
        && run.component.equals(&line.component) && same_data(&run.data, &line.data)
}

/// Whether a line can be folded at a time, or is on a feed nobody wants.
pub fn folds(bot: &Bot, line: &Line, now: u64) -> (r: bool)
    ensures
        r == (bot.wanted(line.kind@) ==> drawable(bot.showing(), bot.seq, line@, now)),
{
    if !bot.wants(line.kind.as_str()) {
        return true;
    }
    match bot.runs.get(&line.kind) {
        Some(run) => {
            proof {
                assert(bot.showing().dom().contains(line.kind@));
                assert(bot.showing()[line.kind@] == run@);
            }
            if repeats(run, line) {
                run.sent_at <= now && run.repeats < u64::MAX
            } else {
                bot.seq < u64::MAX
            }
        },
        None => {
            proof {
                assert(!bot.showing().dom().contains(line.kind@));
            }
            bot.seq < u64::MAX
        },
    }
}

/// An action bar redrawn twenty times a second is one thing showing, not twenty things happening.
///
/// The run keeps its sequence number and every re-send reuses it, so the server updates that line
/// in place rather than waking a waiter on each frame -- a wait would otherwise match a line that
/// was already up before it was called. What is re-sent once a second is what keeps "how long has
/// this been showing" current without paying for the redraws.
pub fn fold(bot: &mut Bot, line: Line, now: u64) -> (frames: Vec<Json>)
    requires
        old(bot).wanted(line.kind@) ==> drawable(old(bot).showing(), old(bot).seq, line@, now),
    ensures
        final(bot).config == old(bot).config,
        final(bot).is_linked == old(bot).is_linked,
        final(bot).calls == old(bot).calls,
        final(bot).feeds == old(bot).feeds,
        !old(bot).wanted(line.kind@) ==> docs(frames@) == Seq::<Doc>::empty() && final(bot).seq
            == old(bot).seq && final(bot).showing() == old(bot).showing(),
        old(bot).wanted(line.kind@) ==> (final(bot).showing(), final(bot).seq, docs(frames@))
            == folded(old(bot).showing(), old(bot).seq, line@, now),
{
    let mut frames: Vec<Json> = Vec::new();
    proof {
        assert(docs(frames@) =~= Seq::<Doc>::empty());
    }
    if !bot.wants(line.kind.as_str()) {
        return frames;
    }
    let ghost before = bot.showing();
    let repeats: bool = match bot.runs.get(&line.kind) {
        Some(run) => repeats(run, &line),
        None => false,
    };
    let ended = bot.runs.remove(&line.kind);
    match ended {
        Some(run) => {
            if repeats {
                let mut run = run;
                let ghost old_run = run@;
                proof {
                    assert(before.dom().contains(line.kind@));
                    assert(before[line.kind@] == run@);
                }
                let due: bool = now - run.sent_at >= FLUSH_MS;
                run.repeats = run.repeats + 1;
                run.ts = now;
                if due {
                    run.sent_at = now;
                    frames.push(frame(&run, false));
                }
                proof {
                    assert(run@ == old_run.repeated(now));
                    if due {
                        assert(docs(frames@) =~= seq![run@.event(false)]);
                    } else {
                        assert(docs(frames@) =~= Seq::<Doc>::empty());
                    }
                }
                bot.runs.insert(line.kind.clone(), run);
                proof {
                    assert(bot.showing() =~= before.insert(line.kind@, run@));
                }
                return frames;
            }
            frames.push(frame(&run, true));
        },
        None => {},
    }
    let seq: u64 = bot.next_seq();
    let kind = line.kind.clone();
    let ghost given = line;
    let run = Run {
        seq,
        kind: line.kind,
        source: line.source,
        text: line.text,
        segments: line.segments,
        component: line.component,
        data: line.data,
        first_ts: now,
        ts: now,
        repeats: 1,
        sent_at: now,
    };
    frames.push(frame(&run, false));
    proof {
        if before.dom().contains(given.kind@) {
            assert(docs(frames@) =~= seq![
                before[given.kind@].event(true),
                run@.event(false),
            ]);
        } else {
            assert(docs(frames@) =~= seq![run@.event(false)]);
        }
    }
    bot.runs.insert(kind, run);
    proof {
        assert(bot.showing() =~= before.insert(given.kind@, run@));
    }
    frames
}

/// The events of flushing a list of runs.
pub open spec fn flush_events(list: Seq<(Seq<char>, Run)>, now: u64) -> Seq<Doc>
    decreases list.len(),
{
    if list.len() == 0 {
        Seq::empty()
    } else {
        let rest = flush_events(list.drop_first(), now);
        let run = list[0].1@;
        if run.stale(now) {
            seq![run.event(true)] + rest
        } else if run.due(now) {
            seq![(RunView { sent_at: now, ..run }).event(false)] + rest
        } else {
            rest
        }
    }
}

/// The runs after a flush: the stale ones gone, the due ones sent.
pub open spec fn flushed(runs: Map<Seq<char>, RunView>, now: u64) -> Map<Seq<char>, RunView> {
    Map::new(
        |k: Seq<char>| runs.dom().contains(k) && !runs[k].stale(now),
        |k: Seq<char>|
            RunView {
                sent_at: if runs[k].due(now) {
                    now
                } else {
                    runs[k].sent_at
                },
                ..runs[k]
            },
    )
}

/// What a table of runs shows.
pub open spec fn shown(runs: Table<String, Run>) -> Map<Seq<char>, RunView> {
    Map::new(|k: Seq<char>| runs@.dom().contains(k), |k: Seq<char>| runs@[k]@)
}

/// Whether the runs can be flushed at a time.
pub fn flushes(bot: &Bot, now: u64) -> (r: bool)
    ensures
        r == flushable(bot.showing(), now),
{
    let ghost list = bot.runs.list();
    let ghost runs = bot.showing();
    let mut i: usize = 0;
    while i < bot.runs.len()
        invariant
            i <= list.len(),
            list == bot.runs.list(),
            runs == bot.showing(),
            forall|k: int|
                0 <= k < i ==> (#[trigger] list[k]).1@.ts <= now && (list[k].1@.stale(now)
                    || list[k].1@.sent_at <= now),
        decreases list.len() - i,
    {
        let (_, run) = bot.runs.entry(i);
        if run.ts > now || (now - run.ts < FLUSH_MS * STALE_FLUSHES && run.sent_at > now) {
            proof {
                crate::table::entry_of_the_map(list, i as int);
                assert(runs.dom().contains(list[i as int].0));
                assert(runs[list[i as int].0] == list[i as int].1@);
            }
            return false;
        }
        i += 1;
    }
    proof {
        assert forall|k: Seq<char>| #[trigger] runs.dom().contains(k) implies runs[k].ts <= now && (
        runs[k].stale(now) || runs[k].sent_at <= now) by {
            let at = crate::table::spot(list, k);
            crate::table::entry_of_the_map(list, at);
            assert(list[at].0 == k);
        }
    }
    true
}

/// Re-send the runs that are due, and close the ones nothing has repeated in a while.
pub fn flush(bot: &mut Bot, now: u64) -> (frames: Vec<Json>)
    requires
        flushable(old(bot).showing(), now),
    ensures
        final(bot).config == old(bot).config,
        final(bot).is_linked == old(bot).is_linked,
        final(bot).calls == old(bot).calls,
        final(bot).feeds == old(bot).feeds,
        final(bot).seq == old(bot).seq,
        final(bot).showing() == flushed(old(bot).showing(), now),
        docs(frames@) == flush_events(old(bot).runs.list(), now),
{
    let mut frames: Vec<Json> = Vec::new();
    let mut kept: Table<String, Run> = Table::new();
    let ghost before = bot.showing();
    let ghost list = bot.runs.list();
    let ghost unchanged = *bot;
    proof {
        assert(docs(frames@) + flush_events(bot.runs.list(), now) =~= flush_events(list, now));
        assert forall|k: Seq<char>| #[trigger] before.dom().contains(k) implies shown(
            bot.runs,
        ).dom().contains(k) by {}
    }
    while bot.runs.len() > 0
        invariant
            bot.config == unchanged.config,
            bot.is_linked == unchanged.is_linked,
            bot.calls == unchanged.calls,
            bot.feeds == unchanged.feeds,
            bot.seq == unchanged.seq,
            flushable(before, now),
            docs(frames@) + flush_events(bot.runs.list(), now) == flush_events(list, now),
            forall|k: Seq<char>| #[trigger]
                shown(bot.runs).dom().contains(k) ==> before.dom().contains(k) && shown(bot.runs)[k]
                    == before[k] && !shown(kept).dom().contains(k),
            forall|k: Seq<char>| #[trigger]
                before.dom().contains(k) && !shown(bot.runs).dom().contains(k) ==> (shown(
                    kept,
                ).dom().contains(k) == flushed(before, now).dom().contains(k)),
            forall|k: Seq<char>| #[trigger]
                shown(kept).dom().contains(k) ==> flushed(before, now).dom().contains(k) && shown(
                    kept,
                )[k] == flushed(before, now)[k],
        decreases bot.runs.list().len(),
    {
        let ghost rest = bot.runs.list();
        let ghost runs = bot.runs;
        let ghost was = frames@;
        let ghost had = kept;
        let (key, run) = bot.runs.remove_at(0);
        proof {
            crate::table::entry_of_the_map(rest, 0);
            assert(shown(runs).dom().contains(key@));
            assert(rest.remove(0) =~= rest.drop_first());
            assert(shown(bot.runs) =~= shown(runs).remove(key@));
        }
        let mut run = run;
        if now - run.ts >= FLUSH_MS * STALE_FLUSHES {
            frames.push(frame(&run, true));
            proof {
                assert(docs(frames@) =~= docs(was).push(run@.event(true)));
                assert(docs(frames@) + flush_events(bot.runs.list(), now) =~= docs(was)
                    + flush_events(rest, now));
            }
        } else {
            let ghost first = run@;
            if now - run.sent_at >= FLUSH_MS {
                run.sent_at = now;
                frames.push(frame(&run, false));
                proof {
                    assert(run@ == RunView { sent_at: now, ..first });
                    assert(docs(frames@) =~= docs(was).push(run@.event(false)));
                    assert(docs(frames@) + flush_events(bot.runs.list(), now) =~= docs(was)
                        + flush_events(rest, now));
                }
            }
            kept.insert(key, run);
            proof {
                assert(shown(kept) =~= shown(had).insert(key@, run@));
            }
        }
    }
    proof {
        assert(flush_events(bot.runs.list(), now) =~= Seq::<Doc>::empty());
        assert(docs(frames@) + Seq::<Doc>::empty() =~= docs(frames@));
        assert forall|k: Seq<char>| !shown(bot.runs).dom().contains(k) by {
            if crate::table::holds(bot.runs.list(), k) {
                let i = crate::table::spot(bot.runs.list(), k);
                assert(0 <= i < bot.runs.list().len());
            }
        }
        assert forall|k: Seq<char>|
            shown(kept).dom().contains(k) == #[trigger] flushed(before, now).dom().contains(k) by {
            if flushed(before, now).dom().contains(k) {
                assert(before.dom().contains(k));
            }
        }
        assert(shown(kept) =~= flushed(before, now));
    }
    bot.runs = kept;
    proof {
        assert(bot.showing() =~= shown(kept));
    }
    frames
}

/// The events of closing a list of runs.
pub open spec fn close_events(list: Seq<(Seq<char>, Run)>, now: u64) -> Seq<Doc> {
    Seq::new(list.len(), |i: int| (RunView { ts: now, ..list[i].1@ }).event(true))
}

/// The bot left the world, so nothing it was showing is showing any more.
pub fn close_all(bot: &mut Bot, now: u64) -> (frames: Vec<Json>)
    ensures
        final(bot).config == old(bot).config,
        final(bot).is_linked == old(bot).is_linked,
        final(bot).calls == old(bot).calls,
        final(bot).feeds == old(bot).feeds,
        final(bot).seq == old(bot).seq,
        final(bot).showing() == Map::<Seq<char>, RunView>::empty(),
        docs(frames@) == close_events(old(bot).runs.list(), now),
{
    let mut frames: Vec<Json> = Vec::new();
    let ghost list = bot.runs.list();
    let ghost unchanged = *bot;
    proof {
        assert(docs(frames@) + close_events(bot.runs.list(), now) =~= close_events(list, now));
    }
    while bot.runs.len() > 0
        invariant
            bot.config == unchanged.config,
            bot.is_linked == unchanged.is_linked,
            bot.calls == unchanged.calls,
            bot.feeds == unchanged.feeds,
            bot.seq == unchanged.seq,
            docs(frames@) + close_events(bot.runs.list(), now) == close_events(list, now),
        decreases bot.runs.list().len(),
    {
        let ghost rest = bot.runs.list();
        let ghost was = frames@;
        let (_, run) = bot.runs.remove_at(0);
        let mut run = run;
        let ghost first = run@;
        run.ts = now;
        frames.push(frame(&run, true));
        proof {
            assert(run@ == RunView { ts: now, ..first });
            assert(docs(frames@) =~= docs(was).push(run@.event(true)));
            assert(docs(frames@) + close_events(bot.runs.list(), now) =~= docs(was) + close_events(
                rest,
                now,
            ));
        }
    }
    proof {
        assert(close_events(bot.runs.list(), now) =~= Seq::<Doc>::empty());
        assert(docs(frames@) + Seq::<Doc>::empty() =~= docs(frames@));
    }
    bot.runs = Table::new();
    proof {
        assert(bot.showing() =~= Map::<Seq<char>, RunView>::empty());
    }
    frames
}

proof fn a_line_is_shown_once_drawn(line: LineView)
    ensures
        forall|seq: u64, now: u64| (#[trigger] opened(line, seq, now)).shows(line),
{
    a_document_is_alike_itself(line.component);
    if line.data is Some {
        a_document_is_alike_itself(line.data->0);
    }
}

/// A line that is drawn again keeps its run: the same sequence number, the same beginning, one more
/// repeat, and no event that closes it.
pub proof fn a_repeated_line_keeps_its_run(
    runs: Map<Seq<char>, RunView>,
    seq: u64,
    line: LineView,
    now: u64,
)
    requires
        runs.dom().contains(line.kind),
        runs[line.kind].shows(line),
        runs[line.kind].repeats < u64::MAX,
    ensures
        ({
            let (after, next, events) = folded(runs, seq, line, now);
            let run = after[line.kind];
            &&& next == seq
            &&& run.seq == runs[line.kind].seq
            &&& run.first_ts == runs[line.kind].first_ts
            &&& run.repeats == runs[line.kind].repeats + 1
            &&& events.len() <= 1
            &&& events.len() == 1 ==> events[0] == run.event(false)
        }),
{
}

/// Once a line was drawn it is what its feed shows, and the feeds it was not drawn on show what they
/// did.
pub proof fn a_line_shows_on_its_own_feed(
    runs: Map<Seq<char>, RunView>,
    seq: u64,
    line: LineView,
    now: u64,
    other: Seq<char>,
)
    requires
        other != line.kind,
    ensures
        ({
            let after = folded(runs, seq, line, now).0;
            &&& after.dom().contains(line.kind)
            &&& after[line.kind].shows(line)
            &&& after.dom().contains(other) == runs.dom().contains(other)
            &&& runs.dom().contains(other) ==> after[other] == runs[other]
        }),
{
    a_line_is_shown_once_drawn(line);
}

/// Drawing the same line twice at one time opens one run and sends it once.
pub proof fn the_same_line_twice_is_one_run(
    runs: Map<Seq<char>, RunView>,
    seq: u64,
    line: LineView,
    now: u64,
)
    requires
        drawable(runs, seq, line, now),
    ensures
        ({
            let (once, next, _) = folded(runs, seq, line, now);
            let (twice, last, events) = folded(once, next, line, now);
            &&& last == next
            &&& events == Seq::<Doc>::empty()
            &&& twice[line.kind].seq == once[line.kind].seq
        }),
{
    a_line_is_shown_once_drawn(line);
}

/// Nothing is sent again sooner than the flush says, and a run that stopped showing is closed by a
/// flush and by no later one.
pub proof fn a_flush_leaves_nothing_due(runs: Map<Seq<char>, RunView>, now: u64, kind: Seq<char>)
    requires
        flushable(runs, now),
        flushed(runs, now).dom().contains(kind),
    ensures
        !flushed(runs, now)[kind].due(now),
        !flushed(runs, now)[kind].stale(now),
        runs.dom().contains(kind),
        flushed(runs, now)[kind].seq == runs[kind].seq,
{
}

/// A chat line, where it goes: the source that produced it, the words, and the component.
pub struct ChatLine {
    /// A system line flagged as an overlay, which the client draws above the hotbar.
    pub overlay: bool,
    /// Who said it, where it was a player.
    pub sender: Option<String>,
    pub text: String,
    pub component: Json,
}

/// A chat line as an event on the wire.
pub open spec fn chat_event(seq: u64, line: ChatLine, ts: u64) -> Doc {
    Doc::object().with("t"@, Doc::Text("event"@)).with("seq"@, Doc::number(seq as int)).with(
        "kind"@,
        Doc::Text("chat"@),
    ).with(
        "source"@,
        Doc::Text(
            match line.sender {
                Some(sender) => sender@,
                None => "system"@,
            },
        ),
    ).with("text"@, Doc::Text(line.text@)).with("component"@, line.component@).with(
        "ts"@,
        Doc::number(ts as int),
    ).with("firstTs"@, Doc::number(ts as int)).with("repeats"@, Doc::number(1)).with(
        "closed"@,
        Doc::Bool(false),
    )
}

/// What a line of a feed that is drawn with stacked glyphs says.
pub open spec fn drawn_line(
    kind: Seq<char>,
    source: Seq<char>,
    text: Seq<char>,
    segments: Doc,
    component: Doc,
) -> LineView {
    LineView { kind, source, text, segments: Some(segments), component, data: None }
}

/// A system line flagged as an overlay, as the action bar has it.
pub open spec fn overlay_line(line: ChatLine, segments: Doc) -> LineView {
    drawn_line("actionBar"@, "system"@, line.text@, segments, line.component@)
}

/// Whether a chat line can be pushed at a time, or is on a feed nobody wants.
pub fn pushes(bot: &Bot, line: &ChatLine, segments: &Json, now: u64) -> (r: bool)
    ensures
        r == ((!line.overlay && bot.wanted("chat"@) ==> bot.seq < u64::MAX) && (line.overlay
            && bot.wanted("actionBar"@) ==> drawable(
            bot.showing(),
            bot.seq,
            overlay_line(*line, segments@),
            now,
        ))),
{
    if line.overlay {
        let drawn = drawn(
            "actionBar",
            "system",
            line.text.clone(),
            segments.copy(),
            line.component.copy(),
        );
        return folds(bot, &drawn, now);
    }
    !bot.wants("chat") || bot.seq < u64::MAX
}

/// A chat line, pushed as it arrives. Chat is never folded: the same line twice is information.
///
/// A system line flagged as an overlay is not chat at all: the client draws it above the hotbar,
/// and a plugin that writes its HUD that way would otherwise fill the chat feed at twenty lines a
/// second while the action bar feed stayed empty. Such a line goes to the action bar instead, split
/// at `segments`.
pub fn chat(bot: &mut Bot, line: ChatLine, segments: Json, now: u64) -> (frames: Vec<Json>)
    requires
        !line.overlay && old(bot).wanted("chat"@) ==> old(bot).seq < u64::MAX,
        line.overlay && old(bot).wanted("actionBar"@) ==> drawable(
            old(bot).showing(),
            old(bot).seq,
            overlay_line(line, segments@),
            now,
        ),
    ensures
        final(bot).config == old(bot).config,
        final(bot).is_linked == old(bot).is_linked,
        final(bot).calls == old(bot).calls,
        final(bot).feeds == old(bot).feeds,
        !line.overlay && !old(bot).wanted("chat"@) ==> docs(frames@) == Seq::<Doc>::empty()
            && final(bot).seq == old(bot).seq && final(bot).showing() == old(bot).showing(),
        !line.overlay && old(bot).wanted("chat"@) ==> docs(frames@) == seq![
            chat_event((old(bot).seq + 1) as u64, line, now),
        ] && final(bot).seq == old(bot).seq + 1 && final(bot).showing() == old(bot).showing(),
        line.overlay && !old(bot).wanted("actionBar"@) ==> docs(frames@) == Seq::<Doc>::empty()
            && final(bot).seq == old(bot).seq && final(bot).showing() == old(bot).showing(),
        line.overlay && old(bot).wanted("actionBar"@) ==> (
            final(bot).showing(),
            final(bot).seq,
            docs(frames@),
        ) == folded(old(bot).showing(), old(bot).seq, overlay_line(line, segments@), now),
{
    if line.overlay {
        let drawn = drawn("actionBar", "system", line.text, segments, line.component);
        return fold(bot, drawn, now);
    }
    let mut frames: Vec<Json> = Vec::new();
    proof {
        assert(docs(frames@) =~= Seq::<Doc>::empty());
    }
    if !bot.wants("chat") {
        return frames;
    }
    let seq: u64 = bot.next_seq();
    let source = match line.sender {
        Some(sender) => sender,
        None => "system".to_owned(),
    };
    frames.push(
        Json::object().with("t", Json::text("event")).with("seq", Json::count(seq)).with(
            "kind",
            Json::text("chat"),
        ).with("source", Json::Text(source)).with("text", Json::Text(line.text)).with(
            "component",
            line.component,
        ).with("ts", Json::count(now)).with("firstTs", Json::count(now)).with(
            "repeats",
            Json::count(1),
        ).with("closed", Json::Bool(false)),
    );
    proof {
        assert(docs(frames@) =~= seq![chat_event((old(bot).seq + 1) as u64, line, now)]);
    }
    frames
}

/// A line of a feed a server draws with stacked glyphs, split where it changes style. Chat is prose,
/// and splitting it at every style change turns one sentence into a dozen fragments.
pub fn drawn(kind: &str, source: &str, text: String, segments: Json, component: Json) -> (r: Line)
    ensures
        r@ == drawn_line(kind@, source@, text@, segments@, component@),
{
    Line {
        kind: kind.to_owned(),
        source: source.to_owned(),
        text,
        segments: Some(segments),
        component,
        data: None,
    }
}

/// What the line of a dialog says.
pub open spec fn dialog_line(shown: Doc) -> LineView {
    LineView {
        kind: "dialog"@,
        source: "dialog"@,
        text: match shown.at("title"@) {
            Some(title) => title.words(),
            None => Seq::empty(),
        },
        segments: None,
        component: match shown.at("title"@) {
            Some(title) => title,
            None => Doc::Null,
        },
        data: Some(shown),
    }
}

/// What the line of a dialog that was closed says.
pub open spec fn closed_line() -> LineView {
    LineView {
        kind: "dialog"@,
        source: "closed"@,
        text: "the dialog was closed"@,
        segments: None,
        component: Doc::Text("the dialog was closed"@),
        data: None,
    }
}

/// The dialog itself rides in `data`, as the game serialises one; the title is the text, so a
/// server that reads nothing else still has something to show.
pub fn dialog(shown: &Json) -> (r: Line)
    ensures
        r@ == dialog_line(shown@),
{
    let component = match shown.get("title") {
        Some(title) => title.copy(),
        None => Json::Null,
    };
    Line {
        kind: "dialog".to_owned(),
        source: "dialog".to_owned(),
        text: component.words(),
        segments: None,
        component,
        data: Some(shown.copy()),
    }
}

pub fn dialog_closed() -> (r: Line)
    ensures
        r@ == closed_line(),
{
    Line {
        kind: "dialog".to_owned(),
        source: "closed".to_owned(),
        text: "the dialog was closed".to_owned(),
        segments: None,
        component: Json::text("the dialog was closed"),
        data: None,
    }
}

/// What an event says of a run, field by field.
pub proof fn an_event_says_its_run(run: RunView, closed: bool)
    ensures
        ({
            let said = run.event(closed);
            &&& said.text_at("t"@) == Some("event"@)
            &&& said.at("seq"@) == Some(Doc::number(run.seq as int))
            &&& said.text_at("kind"@) == Some(run.kind)
            &&& said.text_at("source"@) == Some(run.source)
            &&& said.text_at("text"@) == Some(run.text)
            &&& said.at("component"@) == Some(run.component)
            &&& said.at("ts"@) == Some(Doc::number(run.ts as int))
            &&& said.at("firstTs"@) == Some(Doc::number(run.first_ts as int))
            &&& said.at("repeats"@) == Some(Doc::number(run.repeats as int))
            &&& said.bool_at("closed"@) == Some(closed)
            &&& run.segments matches Some(segments) ==> said.at("segments"@) == Some(segments)
            &&& run.data matches Some(data) ==> said.at("data"@) == Some(data)
            &&& run.segments is None ==> said.at("segments"@) is None
            &&& run.data is None ==> said.at("data"@) is None
        }),
{
    broadcast use {a_field_reads_back, an_empty_object_has_nothing};
    reveal_strlit("t");
    reveal_strlit("seq");
    reveal_strlit("kind");
    reveal_strlit("source");
    reveal_strlit("text");
    reveal_strlit("component");
    reveal_strlit("ts");
    reveal_strlit("firstTs");
    reveal_strlit("repeats");
    reveal_strlit("closed");
    reveal_strlit("segments");
    reveal_strlit("data");
    assert("t"@.len() == 1);
    assert("seq"@.len() == 3);
    assert("kind"@.len() == 4);
    assert("source"@.len() == 6);
    assert("text"@.len() == 4);
    assert("component"@.len() == 9);
    assert("ts"@.len() == 2);
    assert("firstTs"@.len() == 7);
    assert("repeats"@.len() == 7);
    assert("closed"@.len() == 6);
    assert("segments"@.len() == 8);
    assert("data"@.len() == 4);
    assert("kind"@[0] != "text"@[0]);
    assert("kind"@[0] != "data"@[0]);
    assert("source"@[0] != "closed"@[0]);
    assert("text"@[0] != "data"@[0]);
    assert("firstTs"@[0] != "repeats"@[0]);
}

/// A run that is opened begins now, once, with what its line says.
pub proof fn a_run_opens_with_its_line(line: LineView, seq: u64, now: u64)
    ensures
        ({
            let run = opened(line, seq, now);
            &&& run.seq == seq && run.first_ts == now && run.ts == now && run.sent_at == now
            &&& run.repeats == 1
            &&& run.kind == line.kind && run.source == line.source && run.text == line.text
            &&& run.component == line.component && run.segments == line.segments && run.data == line.data
        }),
{
}

/// A line repeats a run where its source, its words, its component and its data are the run's.
pub proof fn a_line_repeats_what_is_the_same(run: RunView, line: LineView)
    ensures
        run.source != line.source || run.text != line.text ==> !run.shows(line),
        !run.component.alike(line.component) ==> !run.shows(line),
        run.data is Some && line.data is None ==> !run.shows(line),
        run.source == line.source && run.text == line.text && run.component.alike(line.component)
            && run.data is None && line.data is None ==> run.shows(line),
{
}

/// A run is sent again a second after it was, and closed three seconds after it was last drawn.
pub proof fn a_run_is_due_after_a_second(run: RunView, now: u64)
    requires
        run.sent_at <= now,
        run.ts <= now,
    ensures
        run.due(now) <==> now >= run.sent_at + 1000,
        run.stale(now) <==> now >= run.ts + 3000,
        run.repeats < u64::MAX ==> run.repeated(now).repeats == run.repeats + 1 && run.repeated(now).ts
            == now && run.repeated(now).seq == run.seq && run.repeated(now).first_ts == run.first_ts,
        now >= run.sent_at + 1000 ==> run.repeated(now).sent_at == now,
        now < run.sent_at + 1000 ==> run.repeated(now).sent_at == run.sent_at,
{
}

/// A new line closes the run its feed had and opens the next, each said once and in that order.
pub proof fn a_new_line_closes_the_last(
    runs: Map<Seq<char>, RunView>,
    seq: u64,
    line: LineView,
    now: u64,
)
    requires
        seq < u64::MAX,
        !(runs.dom().contains(line.kind) && runs[line.kind].shows(line)),
    ensures
        ({
            let (after, next, events) = folded(runs, seq, line, now);
            &&& next == seq + 1
            &&& after[line.kind].seq == seq + 1 && after[line.kind].repeats == 1
            &&& after[line.kind].text == line.text && after[line.kind].first_ts == now
            &&& !runs.dom().contains(line.kind) ==> events.len() == 1
            &&& runs.dom().contains(line.kind) ==> events.len() == 2 && events[0].bool_at("closed"@)
                == Some(true) && events[0].at("seq"@) == Some(Doc::number(runs[line.kind].seq as int))
            &&& events.last().bool_at("closed"@) == Some(false) && events.last().at("seq"@) == Some(
                Doc::number(seq + 1),
            )
        }),
{
    broadcast use {a_field_reads_back, an_empty_object_has_nothing};
    reveal_strlit("t");
    reveal_strlit("seq");
    reveal_strlit("kind");
    reveal_strlit("source");
    reveal_strlit("text");
    reveal_strlit("component");
    reveal_strlit("ts");
    reveal_strlit("firstTs");
    reveal_strlit("repeats");
    reveal_strlit("closed");
    reveal_strlit("segments");
    reveal_strlit("data");
    assert("t"@.len() == 1);
    assert("seq"@.len() == 3);
    assert("kind"@.len() == 4);
    assert("source"@.len() == 6);
    assert("text"@.len() == 4);
    assert("component"@.len() == 9);
    assert("ts"@.len() == 2);
    assert("firstTs"@.len() == 7);
    assert("repeats"@.len() == 7);
    assert("closed"@.len() == 6);
    assert("segments"@.len() == 8);
    assert("data"@.len() == 4);
    assert("kind"@[0] != "text"@[0]);
    assert("kind"@[0] != "data"@[0]);
    assert("source"@[0] != "closed"@[0]);
    assert("text"@[0] != "data"@[0]);
    assert("firstTs"@[0] != "repeats"@[0]);
}

/// What a chat line says: who said it, or the system, what, and when.
pub proof fn a_chat_line_says_who_said_it(seq: u64, line: ChatLine, ts: u64)
    ensures
        ({
            let said = chat_event(seq, line, ts);
            &&& said.text_at("kind"@) == Some("chat"@)
            &&& said.at("seq"@) == Some(Doc::number(seq as int))
            &&& line.sender matches Some(sender) ==> said.text_at("source"@) == Some(sender@)
            &&& line.sender is None ==> said.text_at("source"@) == Some("system"@)
            &&& said.text_at("text"@) == Some(line.text@)
            &&& said.at("component"@) == Some(line.component@)
            &&& said.at("ts"@) == Some(Doc::number(ts as int))
            &&& said.bool_at("closed"@) == Some(false)
        }),
        FLUSH_MS == 1000,
        STALE_FLUSHES == 3,
{
    broadcast use {a_field_reads_back, an_empty_object_has_nothing};
    reveal_strlit("t");
    reveal_strlit("seq");
    reveal_strlit("kind");
    reveal_strlit("source");
    reveal_strlit("text");
    reveal_strlit("component");
    reveal_strlit("ts");
    reveal_strlit("firstTs");
    reveal_strlit("repeats");
    reveal_strlit("closed");
    reveal_strlit("segments");
    reveal_strlit("data");
    assert("t"@.len() == 1);
    assert("seq"@.len() == 3);
    assert("kind"@.len() == 4);
    assert("source"@.len() == 6);
    assert("text"@.len() == 4);
    assert("component"@.len() == 9);
    assert("ts"@.len() == 2);
    assert("firstTs"@.len() == 7);
    assert("repeats"@.len() == 7);
    assert("closed"@.len() == 6);
    assert("segments"@.len() == 8);
    assert("data"@.len() == 4);
    assert("kind"@[0] != "text"@[0]);
    assert("kind"@[0] != "data"@[0]);
    assert("source"@[0] != "closed"@[0]);
    assert("text"@[0] != "data"@[0]);
    assert("firstTs"@[0] != "repeats"@[0]);
}

/// A flush closes what is stale, sends what is due, and leaves the rest of each run as it was.
pub proof fn a_flush_sends_what_is_due(runs: Map<Seq<char>, RunView>, now: u64, kind: Seq<char>)
    requires
        runs.dom().contains(kind),
        runs[kind].ts <= now,
        runs[kind].sent_at <= now,
    ensures
        now >= runs[kind].ts + 3000 ==> !flushed(runs, now).dom().contains(kind),
        now < runs[kind].ts + 3000 ==> flushed(runs, now).dom().contains(kind) && {
            let run = flushed(runs, now)[kind];
            &&& run.text == runs[kind].text && run.seq == runs[kind].seq && run.repeats
                == runs[kind].repeats && run.ts == runs[kind].ts
            &&& now >= runs[kind].sent_at + 1000 ==> run.sent_at == now
            &&& now < runs[kind].sent_at + 1000 ==> run.sent_at == runs[kind].sent_at
        },
{
}

/// The line of a dialog says its title and carries the dialog; that of one that was closed says so.
pub proof fn a_dialogs_line_says_its_title(shown: Doc)
    ensures
        dialog_line(shown).kind == "dialog"@ && dialog_line(shown).source == "dialog"@,
        dialog_line(shown).data == Some(shown),
        shown.at("title"@) matches Some(title) ==> dialog_line(shown).text == title.words()
            && dialog_line(shown).component == title,
        closed_line().kind == "dialog"@ && closed_line().source == "closed"@ && closed_line().data is None
            && closed_line().text == "the dialog was closed"@,
{
}

/// What a flush says of the first run: that it closed where it is stale, that it still shows where it is
/// due, and nothing otherwise; and of the others the same.
pub proof fn a_flush_says_each_run_once(list: Seq<(Seq<char>, Run)>, now: u64)
    requires
        list.len() > 0,
        list[0].1.ts <= now,
        list[0].1.sent_at <= now,
    ensures
        ({
            let rest = flush_events(list.drop_first(), now);
            let run = list[0].1@;
            &&& now >= run.ts + 3000 ==> flush_events(list, now) == seq![run.event(true)] + rest
            &&& now < run.ts + 3000 && now >= run.sent_at + 1000 ==> flush_events(list, now) == seq![
                (RunView { sent_at: now, ..run }).event(false),
            ] + rest
            &&& now < run.ts + 3000 && now < run.sent_at + 1000 ==> flush_events(list, now) == rest
            &&& flush_events(Seq::empty(), now).len() == 0
        }),
{
}

/// Leaving the world closes every run, as of now.
pub proof fn leaving_closes_every_run(list: Seq<(Seq<char>, Run)>, now: u64, i: int)
    requires
        0 <= i < list.len(),
    ensures
        close_events(list, now).len() == list.len(),
        close_events(list, now)[i].bool_at("closed"@) == Some(true),
        close_events(list, now)[i].at("seq"@) == Some(Doc::number(list[i].1.seq as int)),
        close_events(list, now)[i].at("ts"@) == Some(Doc::number(now as int)),
        close_events(list, now)[i].text_at("text"@) == Some(list[i].1.text@),
{
    broadcast use {a_field_reads_back, an_empty_object_has_nothing};
    reveal_strlit("t");
    reveal_strlit("seq");
    reveal_strlit("kind");
    reveal_strlit("source");
    reveal_strlit("text");
    reveal_strlit("component");
    reveal_strlit("ts");
    reveal_strlit("firstTs");
    reveal_strlit("repeats");
    reveal_strlit("closed");
    reveal_strlit("segments");
    reveal_strlit("data");
    assert("t"@.len() == 1);
    assert("seq"@.len() == 3);
    assert("kind"@.len() == 4);
    assert("source"@.len() == 6);
    assert("text"@.len() == 4);
    assert("component"@.len() == 9);
    assert("ts"@.len() == 2);
    assert("firstTs"@.len() == 7);
    assert("repeats"@.len() == 7);
    assert("closed"@.len() == 6);
    assert("segments"@.len() == 8);
    assert("data"@.len() == 4);
    assert("kind"@[0] != "text"@[0]);
    assert("kind"@[0] != "data"@[0]);
    assert("source"@[0] != "closed"@[0]);
    assert("text"@[0] != "data"@[0]);
    assert("firstTs"@[0] != "repeats"@[0]);
}

/// A run and a line read as they are held.
pub proof fn a_run_reads_as_it_is_held(run: Run, line: Line)
    ensures
        run@.seq == run.seq && run@.ts == run.ts && run@.first_ts == run.first_ts && run@.sent_at
            == run.sent_at && run@.repeats == run.repeats && run@.kind == run.kind@ && run@.source
            == run.source@ && run@.text == run.text@ && run@.component == run.component@,
        line@.kind == line.kind@ && line@.source == line.source@ && line@.text == line.text@
            && line@.component == line.component@ && line@.segments == doc_of(line.segments)
            && line@.data == doc_of(line.data),
{
}

/// A system line flagged as an overlay is drawn on the action bar, with its words and its pieces.
pub proof fn an_overlay_goes_on_the_action_bar(line: ChatLine, segments: Doc)
    ensures
        ({
            let drawn = overlay_line(line, segments);
            &&& drawn.kind == "actionBar"@ && drawn.source == "system"@
            &&& drawn.text == line.text@ && drawn.component == line.component@
            &&& drawn.segments == Some(segments) && drawn.data is None
        }),
{
}

} // verus!
