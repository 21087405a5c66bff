//! Calls: what one comes to, and the table of those in flight.
use vstd::prelude::*;

use crate::json::{a_field_reads_back, an_empty_object_has_nothing, Doc, Json};
use crate::table::Table;
use crate::words::{cat2, cat4, dec, decimal};

verus! {

/// What a call comes to: a sentence, and for a structured tool the document the server words it from.
pub struct Answer {
    pub text: String,
    pub data: Option<Json>,
}

pub struct AnswerView {
    pub text: Seq<char>,
    pub data: Option<Doc>,
}

impl View for Answer {
    type V = AnswerView;

    open spec fn view(&self) -> AnswerView {
        AnswerView {
            text: self.text@,
            data: match self.data {
                Some(data) => Some(data@),
                None => None,
            },
        }
    }
}

impl AnswerView {
    pub open spec fn plain(text: Seq<char>) -> AnswerView {
        AnswerView { text, data: None }
    }

    pub open spec fn full(text: Seq<char>, data: Doc) -> AnswerView {
        AnswerView { text, data: Some(data) }
    }
}

impl Answer {
    pub fn text(text: String) -> (r: Answer)
        ensures
            r@ == AnswerView::plain(text@),
    {
        Answer { text, data: None }
    }

    pub fn data(text: String, data: Json) -> (r: Answer)
        ensures
            r@ == AnswerView::full(text@, data@),
    {
        Answer { text, data: Some(data) }
    }
}

/// A call that did not work, by class, because the class is what decides what the server does with
/// the session.
pub struct Failure {
    pub class: &'static str,
    pub code: String,
    pub message: String,
    pub retryable: bool,
}

pub struct FailureView {
    pub class: Seq<char>,
    pub code: Seq<char>,
    pub message: Seq<char>,
    pub retryable: bool,
}

impl View for Failure {
    type V = FailureView;

    open spec fn view(&self) -> FailureView {
        FailureView {
            class: self.class@,
            code: self.code@,
            message: self.message@,
            retryable: self.retryable,
        }
    }
}

impl FailureView {
    pub open spec fn refusal(code: Seq<char>, message: Seq<char>) -> FailureView {
        FailureView { class: "tool"@, code, message, retryable: false }
    }

    pub open spec fn misuse(message: Seq<char>) -> FailureView {
        FailureView { class: "args"@, code: "BAD_ARGS"@, message, retryable: false }
    }

    pub open spec fn outside() -> FailureView {
        FailureView {
            class: "tool"@,
            code: "NOT_IN_GAME"@,
            message: "the bot is not in a world"@,
            retryable: true,
        }
    }
}

impl Failure {
    pub fn refused(code: &str, message: String) -> (r: Failure)
        ensures
            r@ == FailureView::refusal(code@, message@),
    {
        Failure { class: "tool", code: code.to_owned(), message, retryable: false }
    }

    pub fn bad_args(message: String) -> (r: Failure)
        ensures
            r@ == FailureView::misuse(message@),
    {
        Failure { class: "args", code: "BAD_ARGS".to_owned(), message, retryable: false }
    }

    pub fn not_in_game() -> (r: Failure)
        ensures
            r@ == FailureView::outside(),
    {
        Failure {
            class: "tool",
            code: "NOT_IN_GAME".to_owned(),
            message: "the bot is not in a world".to_owned(),
            retryable: true,
        }
    }

    pub fn unsupported(tool: &str) -> (r: Failure)
        ensures
            r.class@ == "unsupported"@,
            r.code@ == "NOT_IMPLEMENTED"@,
            r.message@ == tool@ + " is not implemented by the azalea bot"@,
            !r.retryable,
    {
        Failure {
            class: "unsupported",
            code: "NOT_IMPLEMENTED".to_owned(),
            message: cat2(tool, " is not implemented by the azalea bot"),
            retryable: false,
        }
    }

    /// The failure of a call whose deadline came first.
    pub fn deadline(tool: &str, deadline_ms: u64) -> (r: Failure)
        ensures
            r.class@ == "timeout"@,
            r.code@ == "DEADLINE"@,
            r.message@ == tool@ + " did not finish within "@ + dec(deadline_ms as int) + "ms"@,
            r.retryable,
    {
        Failure {
            class: "timeout",
            code: "DEADLINE".to_owned(),
            message: cat4(tool, " did not finish within ", decimal(deadline_ms).as_str(), "ms"),
            retryable: true,
        }
    }

    /// The failure of a call that was called off, for a reason where one was given.
    pub fn cancelled(reason: Option<String>) -> (r: Failure)
        ensures
            r.class@ == "cancelled"@,
            r.code@ == "CANCELLED"@,
            r.message@ == match reason {
                Some(reason) => reason@,
                None => "cancelled"@,
            },
            !r.retryable,
    {
        Failure {
            class: "cancelled",
            code: "CANCELLED".to_owned(),
            message: match reason {
                Some(reason) => reason,
                None => "cancelled".to_owned(),
            },
            retryable: false,
        }
    }
}

pub type Outcome = Result<Answer, Failure>;

/// What an outcome says.
pub open spec fn said(outcome: Outcome) -> Result<AnswerView, FailureView> {
    match outcome {
        Ok(answer) => Ok(answer@),
        Err(failure) => Err(failure@),
    }
}

/// The calls in flight, each with whether a cancel can still reach it.
///
/// The entry stays until the call answers, because its absence is how a call learns the link dropped
/// under it.
pub struct Calls {
    pub inflight: Table<String, bool>,
}

/// What happens to the calls.
pub enum Happening {
    /// A call comes in.
    Call(Seq<char>),
    /// A call is called off.
    Cancel(Seq<char>),
    /// A call has come to its end.
    End(Seq<char>),
    /// The link drops.
    Drop,
}

/// The calls in flight after something happened, each with whether a cancel can still reach it.
pub open spec fn next(inflight: Map<Seq<char>, bool>, happening: Happening) -> Map<Seq<char>, bool> {
    match happening {
        Happening::Call(key) => if inflight.dom().contains(key) {
            inflight
        } else {
            inflight.insert(key, true)
        },
        Happening::Cancel(key) => if inflight.dom().contains(key) {
            inflight.insert(key, false)
        } else {
            inflight
        },
        Happening::End(key) => inflight.remove(key),
        Happening::Drop => Map::empty(),
    }
}

/// Whether a result is sent for an id as something happens: only the end of a call in flight sends
/// one.
pub open spec fn sends(inflight: Map<Seq<char>, bool>, happening: Happening, key: Seq<char>) -> bool {
    happening == Happening::End(key) && inflight.dom().contains(key)
}

impl Calls {
    pub fn new() -> (r: Calls)
        ensures
            r.inflight@ == Map::<Seq<char>, bool>::empty(),
    {
        Calls { inflight: Table::new() }
    }

    /// Take a call on, unless one of the same id is in flight: that one is left alone.
    pub fn begin(&mut self, key: &str) -> (taken: bool)
        ensures
            taken == !old(self).inflight@.dom().contains(key@),
            final(self).inflight@ == next(old(self).inflight@, Happening::Call(key@)),
    {
        let key: String = key.to_owned();
        if self.inflight.contains(&key) {
            false
        } else {
            self.inflight.insert(key, true);
            true
        }
    }

    /// Call a call off: whether there was one that a cancel still reached. An unknown id is a call
    /// that already answered, and racing a completing call is normal.
    pub fn cancel(&mut self, key: &str) -> (reached: bool)
        ensures
            reached == (old(self).inflight@.dom().contains(key@) && old(self).inflight@[key@]),
            final(self).inflight@ == next(old(self).inflight@, Happening::Cancel(key@)),
    {
        let key: String = key.to_owned();
        let open: bool = match self.inflight.get(&key) {
            Some(open) => *open,
            None => false,
        };
        if open {
            self.inflight.insert(key, false);
        } else {
            proof {
                if self.inflight@.dom().contains(key@) {
                    assert(self.inflight@.insert(key@, false) =~= self.inflight@);
                }
            }
        }
        open
    }

    /// Whether a call that has come to its end is still to be answered. Gone from the table means the
    /// link dropped under it, and there is nobody to answer.
    pub fn finish(&mut self, key: &str) -> (answers: bool)
        ensures
            answers == sends(old(self).inflight@, Happening::End(key@), key@),
            final(self).inflight@ == next(old(self).inflight@, Happening::End(key@)),
    {
        self.inflight.remove(&key.to_owned()).is_some()
    }

    /// Forget every call: there is no link left to answer on.
    pub fn clear(&mut self)
        ensures
            final(self).inflight@ == next(old(self).inflight@, Happening::Drop),
    {
        self.inflight.clear();
    }

    pub fn busy(&self) -> (n: usize)
        ensures
            n == self.inflight.list().len(),
    {
        self.inflight.len()
    }
}

/// The calls in flight after all that happened.
pub open spec fn after(inflight: Map<Seq<char>, bool>, history: Seq<Happening>) -> Map<
    Seq<char>,
    bool,
>
    decreases history.len(),
{
    if history.len() == 0 {
        inflight
    } else {
        next(after(inflight, history.drop_last()), history.last())
    }
}

/// How many calls of an id were taken on.
pub open spec fn taken_on(inflight: Map<Seq<char>, bool>, history: Seq<Happening>, key: Seq<char>) -> nat
    decreases history.len(),
{
    if history.len() == 0 {
        0
    } else {
        let before = history.drop_last();
        taken_on(inflight, before, key) + if history.last() == Happening::Call(key) && !after(
            inflight,
            before,
        ).dom().contains(key) {
            1nat
        } else {
            0nat
        }
    }
}

/// How many results were sent for an id.
pub open spec fn answered(inflight: Map<Seq<char>, bool>, history: Seq<Happening>, key: Seq<char>) -> nat
    decreases history.len(),
{
    if history.len() == 0 {
        0
    } else {
        let before = history.drop_last();
        answered(inflight, before, key) + if sends(after(inflight, before), history.last(), key) {
            1nat
        } else {
            0nat
        }
    }
}

/// How many calls of an id the link dropped under.
pub open spec fn dropped(inflight: Map<Seq<char>, bool>, history: Seq<Happening>, key: Seq<char>) -> nat
    decreases history.len(),
{
    if history.len() == 0 {
        0
    } else {
        let before = history.drop_last();
        dropped(inflight, before, key) + if history.last() is Drop && after(
            inflight,
            before,
        ).dom().contains(key) {
            1nat
        } else {
            0nat
        }
    }
}

/// Every call taken on is answered once, or dropped with the link, or in flight still, and no
/// result is sent twice.
pub proof fn each_call_has_one_result(history: Seq<Happening>, key: Seq<char>)
    ensures
        ({
            let none = Map::<Seq<char>, bool>::empty();
            &&& taken_on(none, history, key) == answered(none, history, key) + dropped(
                none,
                history,
                key,
            ) + if after(none, history).dom().contains(key) {
                1nat
            } else {
                0nat
            }
            &&& answered(none, history, key) <= taken_on(none, history, key)
        }),
    decreases history.len(),
{
    if history.len() > 0 {
        each_call_has_one_result(history.drop_last(), key);
    }
}

/// A call that is taken on is in flight, unanswered, until it comes to its end or the link drops: a
/// second call of its id meanwhile is not taken on, and a cancel alone sends nothing.
pub proof fn a_call_stays_until_it_ends(
    inflight: Map<Seq<char>, bool>,
    during: Seq<Happening>,
    key: Seq<char>,
)
    requires
        inflight.dom().contains(key),
        forall|i: int|
            0 <= i < during.len() ==> #[trigger] during[i] != Happening::End(key) && !(during[i] is Drop),
    ensures
        after(inflight, during).dom().contains(key),
        taken_on(inflight, during, key) == 0,
        answered(inflight, during, key) == 0,
    decreases during.len(),
{
    if during.len() > 0 {
        let before = during.drop_last();
        assert forall|i: int| 0 <= i < before.len() implies #[trigger] before[i] != Happening::End(key)
            && !(before[i] is Drop) by {
            assert(during[i] != Happening::End(key));
        }
        a_call_stays_until_it_ends(inflight, before, key);
        assert(during[during.len() - 1] != Happening::End(key));
    }
}

/// What is not in flight is sent no result until a call of its id is taken on.
pub proof fn nothing_in_flight_is_sent_nothing(
    inflight: Map<Seq<char>, bool>,
    later: Seq<Happening>,
    key: Seq<char>,
)
    requires
        !inflight.dom().contains(key),
        forall|i: int| 0 <= i < later.len() ==> #[trigger] later[i] != Happening::Call(key),
    ensures
        !after(inflight, later).dom().contains(key),
        answered(inflight, later, key) == 0,
    decreases later.len(),
{
    if later.len() > 0 {
        let before = later.drop_last();
        assert forall|i: int| 0 <= i < before.len() implies #[trigger] before[i] != Happening::Call(
            key,
        ) by {
            assert(later[i] != Happening::Call(key));
        }
        nothing_in_flight_is_sent_nothing(inflight, before, key);
        assert(later[later.len() - 1] != Happening::Call(key));
    }
}

proof fn one_history_and_another(
    inflight: Map<Seq<char>, bool>,
    first: Seq<Happening>,
    then_on: Seq<Happening>,
    key: Seq<char>,
)
    ensures
        after(inflight, first + then_on) == after(after(inflight, first), then_on),
        answered(inflight, first + then_on, key) == answered(inflight, first, key) + answered(
            after(inflight, first),
            then_on,
            key,
        ),
    decreases then_on.len(),
{
    let whole = first + then_on;
    if then_on.len() == 0 {
        assert(whole =~= first);
    } else {
        one_history_and_another(inflight, first, then_on.drop_last(), key);
        assert(whole.drop_last() =~= first + then_on.drop_last());
        assert(whole.last() == then_on.last());
    }
}

/// While the link stays up, a call of an id that is not in flight has exactly one result, sent as it
/// comes to its end, whatever else happens meanwhile and however many calls of its id come in.
pub proof fn a_call_runs_to_one_result(
    inflight: Map<Seq<char>, bool>,
    during: Seq<Happening>,
    later: Seq<Happening>,
    key: Seq<char>,
)
    requires
        !inflight.dom().contains(key),
        forall|i: int|
            0 <= i < during.len() ==> #[trigger] during[i] != Happening::End(key) && !(during[i] is Drop),
        forall|i: int| 0 <= i < later.len() ==> #[trigger] later[i] != Happening::Call(key),
    ensures
        answered(
            inflight,
            seq![Happening::Call(key)] + during + seq![Happening::End(key)] + later,
            key,
        ) == 1,
{
    let call = seq![Happening::Call(key)];
    let end = seq![Happening::End(key)];
    assert(call.drop_last() =~= Seq::<Happening>::empty());
    assert(end.drop_last() =~= Seq::<Happening>::empty());
    one_history_and_another(inflight, call, during, key);
    let open = after(inflight, call);
    assert(open == next(after(inflight, call.drop_last()), call.last()));
    assert(open.dom().contains(key));
    a_call_stays_until_it_ends(open, during, key);
    let waiting = after(open, during);
    one_history_and_another(inflight, call + during, end, key);
    assert(answered(waiting, end, key) == answered(waiting, end.drop_last(), key) + 1);
    assert(after(waiting, end) == next(after(waiting, end.drop_last()), end.last()));
    nothing_in_flight_is_sent_nothing(after(waiting, end), later, key);
    one_history_and_another(inflight, call + during + end, later, key);
    assert(answered(inflight, call, key) == answered(inflight, call.drop_last(), key));
}

/// Once the link dropped no result is sent for a call that was in flight.
pub proof fn a_dropped_link_is_sent_nothing(
    inflight: Map<Seq<char>, bool>,
    later: Seq<Happening>,
    key: Seq<char>,
)
    requires
        forall|i: int| 0 <= i < later.len() ==> #[trigger] later[i] != Happening::Call(key),
    ensures
        answered(inflight, seq![Happening::Drop] + later, key) == 0,
{
    let drop = seq![Happening::Drop];
    assert(drop.drop_last() =~= Seq::<Happening>::empty());
    one_history_and_another(inflight, drop, later, key);
    assert(after(inflight, drop) == next(after(inflight, drop.drop_last()), drop.last()));
    assert(answered(inflight, drop, key) == answered(inflight, drop.drop_last(), key));
    nothing_in_flight_is_sent_nothing(after(inflight, drop), later, key);
}

/// What a call came to first: its work was done, its deadline passed, or it was called off, for a
/// reason where one was given.
pub enum End {
    Done(Outcome),
    Deadline,
    Cancelled(Option<String>),
}

/// What the outcome of a call is, by what it came to first.
pub open spec fn ended(tool: Seq<char>, deadline_ms: u64, end: End) -> Result<AnswerView, FailureView> {
    match end {
        End::Done(outcome) => said(outcome),
        End::Deadline => Err(
            FailureView {
                class: "timeout"@,
                code: "DEADLINE"@,
                message: tool + " did not finish within "@ + dec(deadline_ms as int) + "ms"@,
                retryable: true,
            },
        ),
        End::Cancelled(reason) => Err(
            FailureView {
                class: "cancelled"@,
                code: "CANCELLED"@,
                message: match reason {
                    Some(reason) => reason@,
                    None => "cancelled"@,
                },
                retryable: false,
            },
        ),
    }
}

/// Run one call to exactly one result: the result to send as it comes to its end, where there is
/// still somebody to answer.
///
/// The work, the deadline and a cancel race, and whichever finishes first is the answer.
pub fn run(
    calls: &mut Calls,
    key: &str,
    id: Json,
    tool: &str,
    deadline_ms: u64,
    elapsed: u64,
    end: End,
) -> (r: Option<Json>)
    ensures
        final(calls).inflight@ == next(old(calls).inflight@, Happening::End(key@)),
        r is Some == sends(old(calls).inflight@, Happening::End(key@), key@),
        r matches Some(sent) ==> sent@ == result_doc(id@, elapsed, ended(tool@, deadline_ms, end)),
{
    if !calls.finish(key) {
        return None;
    }
    let outcome: Outcome = match end {
        End::Done(outcome) => outcome,
        End::Deadline => Err(Failure::deadline(tool, deadline_ms)),
        End::Cancelled(reason) => Err(Failure::cancelled(reason)),
    };
    Some(result(id, elapsed, outcome))
}

/// A result as the link carries it.
pub open spec fn result_doc(id: Doc, elapsed: u64, outcome: Result<AnswerView, FailureView>) -> Doc {
    match outcome {
        Ok(answer) => Doc::object().with("t"@, Doc::Text("result"@)).with("id"@, id).with(
            "ok"@,
            Doc::Bool(true),
        ).with("text"@, Doc::Text(answer.text)).with("elapsedMs"@, Doc::number(elapsed as int)).with_some(
            "data"@,
            answer.data,
        ),
        Err(failure) => Doc::object().with("t"@, Doc::Text("result"@)).with("id"@, id).with(
            "ok"@,
            Doc::Bool(false),
        ).with("text"@, Doc::Text(failure.message)).with(
            "error"@,
            Doc::object().with("class"@, Doc::Text(failure.class)).with(
                "code"@,
                Doc::Text(failure.code),
            ).with("message"@, Doc::Text(failure.message)).with(
                "retryable"@,
                Doc::Bool(failure.retryable),
            ),
        ).with("elapsedMs"@, Doc::number(elapsed as int)),
    }
}

/// The result of a call that took `elapsed` milliseconds.
pub fn result(id: Json, elapsed: u64, outcome: Outcome) -> (r: Json)
    ensures
        r@ == result_doc(id@, elapsed, said(outcome)),
{
    match outcome {
        Ok(answer) => {
            Json::object().with("t", Json::text("result")).with("id", id).with(
                "ok",
                Json::Bool(true),
            ).with("text", Json::Text(answer.text)).with("elapsedMs", Json::count(elapsed)).with_some(
                "data",
                answer.data,
            )
        },
        Err(failure) => {
            let error = Json::object().with("class", Json::text(failure.class)).with(
                "code",
                Json::Text(failure.code),
            ).with("message", Json::Text(failure.message.clone())).with(
                "retryable",
                Json::Bool(failure.retryable),
            );
            Json::object().with("t", Json::text("result")).with("id", id).with(
                "ok",
                Json::Bool(false),
            ).with("text", Json::Text(failure.message)).with("error", error).with(
                "elapsedMs",
                Json::count(elapsed),
            )
        },
    }
}

/// What a result says: whose it is, whether it worked, in words, and the data or the error with it.
pub proof fn a_result_says_how_it_went(
    id: Doc,
    elapsed: u64,
    answer: AnswerView,
    failure: FailureView,
)
    ensures
        ({
            let good = result_doc(id, elapsed, Ok(answer));
            &&& good.text_at("t"@) == Some("result"@)
            &&& good.at("id"@) == Some(id)
            &&& good.bool_at("ok"@) == Some(true)
            &&& good.text_at("text"@) == Some(answer.text)
            &&& good.at("elapsedMs"@) == Some(Doc::number(elapsed as int))
            &&& answer.data matches Some(data) ==> good.at("data"@) == Some(data)
            &&& answer.data is None ==> good.at("data"@) is None
            &&& good.at("error"@) is None
        }),
        ({
            let bad = result_doc(id, elapsed, Err(failure));
            let error = bad.at("error"@)->0;
            &&& bad.at("id"@) == Some(id)
            &&& bad.bool_at("ok"@) == Some(false)
            &&& bad.text_at("text"@) == Some(failure.message)
            &&& bad.at("elapsedMs"@) == Some(Doc::number(elapsed as int))
            &&& error.text_at("class"@) == Some(failure.class)
            &&& error.text_at("code"@) == Some(failure.code)
            &&& error.text_at("message"@) == Some(failure.message)
            &&& error.bool_at("retryable"@) == Some(failure.retryable)
        }),
{
    broadcast use {a_field_reads_back, an_empty_object_has_nothing};
    reveal_strlit("t");
    reveal_strlit("id");
    reveal_strlit("ok");
    reveal_strlit("text");
    reveal_strlit("elapsedMs");
    reveal_strlit("data");
    reveal_strlit("error");
    reveal_strlit("class");
    reveal_strlit("code");
    reveal_strlit("message");
    reveal_strlit("retryable");
    assert("t"@.len() == 1);
    assert("id"@.len() == 2);
    assert("ok"@.len() == 2);
    assert("text"@.len() == 4);
    assert("elapsedMs"@.len() == 9);
    assert("data"@.len() == 4);
    assert("error"@.len() == 5);
    assert("class"@.len() == 5);
    assert("code"@.len() == 4);
    assert("message"@.len() == 7);
    assert("retryable"@.len() == 9);
    assert("id"@[0] != "ok"@[0]);
    assert("text"@[0] != "data"@[0]);
    assert("text"@[0] != "code"@[0]);
    assert("elapsedMs"@[0] != "retryable"@[0]);
    assert("data"@[0] != "code"@[0]);
    assert("error"@[0] != "class"@[0]);
}

/// What a call came to first is what it is answered: its work, its deadline, or that it was called off.
pub proof fn what_came_first_is_the_answer(
    tool: Seq<char>,
    deadline_ms: u64,
    outcome: Outcome,
    reason: String,
)
    ensures
        ended(tool, deadline_ms, End::Done(outcome)) == said(outcome),
        ended(tool, deadline_ms, End::Deadline) matches Err(failure) && failure.class == "timeout"@
            && failure.code == "DEADLINE"@ && failure.retryable,
        ended(tool, deadline_ms, End::Cancelled(Some(reason))) matches Err(failure) && failure.class
            == "cancelled"@ && failure.code == "CANCELLED"@ && failure.message == reason@
            && !failure.retryable,
        ended(tool, deadline_ms, End::Cancelled(None)) matches Err(failure) && failure.message
            == "cancelled"@,
{
}

/// What happens to the calls in flight: a call is in flight from when it comes in until it ends or the
/// link drops, and a cancel is heard once.
pub proof fn a_call_is_in_flight_until_it_ends(inflight: Map<Seq<char>, bool>, key: Seq<char>, other: Seq<char>)
    requires
        other != key,
    ensures
        next(inflight, Happening::Call(key)).dom().contains(key),
        !inflight.dom().contains(key) ==> next(inflight, Happening::Call(key))[key],
        inflight.dom().contains(key) ==> next(inflight, Happening::Call(key)) == inflight,
        inflight.dom().contains(key) ==> !next(inflight, Happening::Cancel(key))[key] && next(
            inflight,
            Happening::Cancel(key),
        ).dom().contains(key),
        !next(inflight, Happening::End(key)).dom().contains(key),
        !next(inflight, Happening::Drop).dom().contains(key),
        next(inflight, Happening::Call(key)).dom().contains(other) == inflight.dom().contains(other),
        next(inflight, Happening::Cancel(key)).dom().contains(other) == inflight.dom().contains(other),
        next(inflight, Happening::End(key)).dom().contains(other) == inflight.dom().contains(other),
        inflight.dom().contains(other) ==> next(inflight, Happening::Cancel(key))[other]
            == inflight[other],
        sends(inflight, Happening::End(key), key) == inflight.dom().contains(key),
        !sends(inflight, Happening::Call(key), key) && !sends(inflight, Happening::Cancel(key), key)
            && !sends(inflight, Happening::Drop, key) && !sends(inflight, Happening::End(other), key),
{
}

/// A refusal is a tool's, with its code and its words, and is not tried again; a misuse is the
/// caller's; a bot outside a world may be asked again.
pub proof fn a_failure_has_its_class(code: Seq<char>, message: Seq<char>)
    ensures
        FailureView::refusal(code, message).class == "tool"@ && FailureView::refusal(code, message).code
            == code && FailureView::refusal(code, message).message == message && !FailureView::refusal(
            code,
            message,
        ).retryable,
        FailureView::misuse(message).class == "args"@ && FailureView::misuse(message).code
            == "BAD_ARGS"@ && FailureView::misuse(message).message == message
            && !FailureView::misuse(message).retryable,
        FailureView::outside().code == "NOT_IN_GAME"@ && FailureView::outside().retryable
            && FailureView::outside().class == "tool"@,
{
}

} // verus!
