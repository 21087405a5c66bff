//! Commands: sent, completed, and the one that moves the bot to another server.
use vstd::prelude::*;

use crate::calls::{Answer, AnswerView, Failure, FailureView};
use crate::hud::ints;
use crate::json::{a_field_reads_back, an_empty_object_has_nothing, docs, Doc, Json};
use crate::order::{in_text_order, order_by_text, text_order_of};
use crate::place::BlockPos;
use crate::tools::args::{nat_or, nat_or_of, text, text_of, written, written_of};
use crate::words::{
    after, begins, cat2, cat3, cat5, cat7, contains, dec, decimal, literals, lowercase,
    lowercase_of, occurs, starts_with, texts,
};

verus! {

/// A command with its slash.
pub open spec fn slashed_of(command: Seq<char>) -> Seq<char> {
    if begins(command, "/"@) {
        command
    } else {
        "/"@ + command
    }
}

pub fn slashed(command: &str) -> (r: String)
    ensures
        r@ == slashed_of(command@),
        begins(r@, "/"@),
{
    if starts_with(command, "/") {
        command.to_owned()
    } else {
        let r = cat2("/", command);
        proof {
            assert(r@.subrange(0, "/"@.len() as int) =~= "/"@);
        }
        r
    }
}

/// A slash is put in front of a command given without one, and nothing is taken off one that has
/// its own.
pub proof fn a_slash_is_put_once(command: Seq<char>)
    ensures
        begins(slashed_of(command), "/"@),
        slashed_of(slashed_of(command)) == slashed_of(command),
{
    if !begins(command, "/"@) {
        assert(("/"@ + command).subrange(0, "/"@.len() as int) =~= "/"@);
    }
}

/// What run-command sends, without the slash, and answers. What the server says back is chat, and
/// the buffer that catches it is the server's.
pub fn ran(command: &str) -> (r: (String, Answer))
    ensures
        r.0@ == slashed_of(command@).skip(1),
        r.1@ == AnswerView::plain("Ran "@ + slashed_of(command@) + "."@),
{
    let full = slashed(command);
    proof {
        reveal_strlit("/");
    }
    let sent = after(full.as_str(), 1);
    (sent, Answer::text(cat3("Ran ", full.as_str(), ".")))
}

/// A completion: what it would put, and the words shown with it.
pub struct Suggestion {
    pub text: String,
    pub tooltip: Json,
}

/// What completions are ordered by: their texts, whatever the case.
pub open spec fn lowered(list: Seq<Suggestion>) -> Seq<Seq<char>> {
    Seq::new(list.len(), |i: int| lowercase_of(list[i].text@))
}

/// The completions that are answered, in order and no more than were asked for.
pub open spec fn completion_docs(list: Seq<Suggestion>, order: Seq<int>, limit: int) -> Seq<Doc> {
    Seq::new(
        if order.len() <= limit {
            order.len()
        } else {
            limit as nat
        },
        |i: int|
            Doc::object().with("name"@, Doc::Text(list[order[i]].text@)).with(
                "tooltip"@,
                list[order[i]].tooltip@,
            ),
    )
}

/// What complete-command answers: case-insensitively in order, as the game orders them.
pub fn completed(asked: &str, list: &Vec<Suggestion>, limit: u64) -> (r: Answer)
    ensures
        r@ == AnswerView::full(
            "complete-command"@,
            Doc::object().with("text"@, Doc::Text(asked@)).with(
                "total"@,
                Doc::number(list@.len() as int),
            ).with(
                "completions"@,
                Doc::list(
                    completion_docs(list@, text_order_of(lowered(list@)), limit as int),
                ),
            ),
        ),
{
    let mut keys: Vec<String> = Vec::new();
    let mut k: usize = 0;
    while k < list.len()
        invariant
            k <= list@.len(),
            keys@.len() == k,
            forall|j: int| 0 <= j < k ==> (#[trigger] keys@[j])@ == lowered(list@)[j],
        decreases list@.len() - k,
    {
        keys.push(lowercase(list[k].text.as_str()));
        k += 1;
    }
    proof {
        assert(texts(keys@) =~= lowered(list@));
    }
    let order = order_by_text(&keys);
    let ghost full = ints(order@);
    let mut out: Vec<Json> = Vec::new();
    let mut i: usize = 0;
    while i < order.len() && (i as u64) < limit
        invariant
            i <= order@.len(),
            i <= limit,
            full == ints(order@),
            in_text_order(lowered(list@), full, list@.len() as int),
            out@.len() == i,
            forall|k: int|
                0 <= k < i ==> (#[trigger] out@[k])@ == Doc::object().with(
                    "name"@,
                    Doc::Text(list@[full[k]].text@),
                ).with("tooltip"@, list@[full[k]].tooltip@),
        decreases order@.len() - i,
    {
        proof {
            assert(full[i as int] == order@[i as int] as int);
            assert(full.contains(full[i as int]));
        }
        let suggestion = &list[order[i]];
        out.push(
            Json::object().with("name", Json::Text(suggestion.text.clone())).with(
                "tooltip",
                suggestion.tooltip.copy(),
            ),
        );
        i += 1;
    }
    proof {
        assert(full.len() == order@.len());
        assert(docs(out@) =~= completion_docs(list@, full, limit as int));
    }
    Answer::data(
        "complete-command".to_owned(),
        Json::object().with("text", Json::text(asked)).with(
            "total",
            Json::count(list.len() as u64),
        ).with("completions", Json::list(out)),
    )
}

pub fn completion_timeout(asked: &str, timeout_ms: u64) -> (r: Failure)
    ensures
        r@ == FailureView::refusal(
            "COMPLETION_TIMEOUT"@,
            "the server did not answer what completes "@ + asked@ + " within "@ + dec(
                timeout_ms as int,
            ) + "ms"@,
        ),
{
    Failure::refused(
        "COMPLETION_TIMEOUT",
        cat5(
            "the server did not answer what completes ",
            asked,
            " within ",
            decimal(timeout_ms).as_str(),
            "ms",
        ),
    )
}

/// Whether a line says the bot is already where it was sent.
pub open spec fn is_already_there(line: Seq<char>) -> bool {
    occurs(lowercase_of(line), "already connected"@)
}

/// What Velocity and BungeeCord say when the bot is already where it was sent.
pub fn already_there(line: &str) -> (r: bool)
    ensures
        r == is_already_there(line@),
{
    contains(lowercase(line).as_str(), "already connected")
}

/// What the proxies say when there is nowhere to send it.
pub open spec fn refusals() -> Seq<Seq<char>> {
    seq![
        "does not exist"@,
        "doesn't exist"@,
        "doesnot exist"@,
        "does n't exist"@,
        "unable to connect"@,
        "no available server"@,
        "not a valid server"@,
    ]
}

pub open spec fn is_refused(line: Seq<char>) -> bool {
    exists|i: int|
        0 <= i < refusals().len() && occurs(lowercase_of(line), #[trigger] refusals()[i])
}

/// What they say when there is nowhere to send it.
pub fn refused(line: &str) -> (r: bool)
    ensures
        r == is_refused(line@),
{
    let low = lowercase(line);
    let said: [&'static str; 7] = [
        "does not exist",
        "doesn't exist",
        "doesnot exist",
        "does n't exist",
        "unable to connect",
        "no available server",
        "not a valid server",
    ];
    proof {
        assert(literals(said@) =~= refusals());
    }
    let mut i: usize = 0;
    while i < 7
        invariant
            i <= 7,
            low@ == lowercase_of(line@),
            literals(said@) == refusals(),
            forall|k: int| 0 <= k < i ==> !occurs(low@, #[trigger] refusals()[k]),
        decreases 7 - i,
    {
        proof {
            assert(literals(said@)[i as int] == said@[i as int]@);
        }
        if contains(low.as_str(), said[i]) {
            proof {
                assert(occurs(low@, refusals()[i as int]));
            }
            return true;
        }
        i += 1;
    }
    false
}

pub const SETTLE_TICKS: u64 = 20;

/// What is heard while the bot is on its way to another server.
pub enum News<'a> {
    /// A chat line, with where the bot is.
    Line(&'a str, BlockPos),
    /// A look at the game: spawned, and how often it logged in.
    Look { spawned: bool, logins: u64 },
    TimeUp,
}

/// What the news comes to.
pub enum Arriving {
    NotYet,
    /// The bot is there; the position the backend sends lands after the login, and is waited for.
    Arrived,
    Answer(Answer),
    Failed(Failure),
}

/// What is said when the bot did not arrive in time.
pub open spec fn switch_timeout(target: Seq<char>, timeout_ms: u64) -> FailureView {
    FailureView::refusal(
        "SWITCH_TIMEOUT"@,
        "The bot did not arrive on \""@ + target + "\" within "@ + dec(timeout_ms as int)
            + "ms. Check read-chat for what the proxy said and get-bot-status for the connection state."@,
    )
}

pub fn timed_out(target: &str, timeout_ms: u64) -> (r: Failure)
    ensures
        r@ == switch_timeout(target@, timeout_ms),
{
    Failure::refused(
        "SWITCH_TIMEOUT",
        cat5(
            "The bot did not arrive on \"",
            target,
            "\" within ",
            decimal(timeout_ms).as_str(),
            "ms. Check read-chat for what the proxy said and get-bot-status for the connection state.",
        ),
    )
}

/// One piece of news while the bot is on its way.
///
/// A backend switch is a fresh login on the same connection, so the next login is what says the bot
/// arrived. The other outcome is the proxy answering in chat, and it arrives first when it happens:
/// there is no packet for "that server does not exist", so the two are waited on together and
/// whichever lands first decides.
pub fn switching(target: &str, logins: u64, timeout_ms: u64, news: News) -> (r: Arriving)
    ensures
        match news {
            News::Line(line, at) => if is_already_there(line@) {
                r matches Arriving::Answer(answer) && answer@ == AnswerView::plain(
                    "Already on \""@ + target@ + "\" at "@ + written_of(at) + "."@,
                )
            } else if is_refused(line@) {
                r matches Arriving::Failed(failure) && failure@ == FailureView::refusal(
                    "SWITCH_REFUSED"@,
                    "The proxy refused the switch: "@ + line@,
                )
            } else {
                r is NotYet
            },
            News::Look { spawned, logins: now } => if spawned && now > logins {
                r is Arrived
            } else {
                r is NotYet
            },
            News::TimeUp => r matches Arriving::Failed(failure) && failure@ == switch_timeout(
                target@,
                timeout_ms,
            ),
        },
{
    match news {
        News::Line(line, at) => {
            if already_there(line) {
                return Arriving::Answer(
                    Answer::text(
                        cat5("Already on \"", target, "\" at ", written(at).as_str(), "."),
                    ),
                );
            }
            if refused(line) {
                return Arriving::Failed(
                    Failure::refused(
                        "SWITCH_REFUSED",
                        cat2("The proxy refused the switch: ", line),
                    ),
                );
            }
            Arriving::NotYet
        },
        News::Look { spawned, logins: now } => if spawned && now > logins {
            Arriving::Arrived
        } else {
            Arriving::NotYet
        },
        News::TimeUp => Arriving::Failed(timed_out(target, timeout_ms)),
    }
}

/// What switch-server answers once the bot has settled.
pub fn now_on(target: &str, at: BlockPos, dimension: &str) -> (r: Answer)
    ensures
        r@ == AnswerView::plain(
            "Now on \""@ + target@ + "\" at "@ + written_of(at) + " in "@ + dimension@ + "."@,
        ),
{
    Answer::text(
        cat7("Now on \"", target, "\" at ", written(at).as_str(), " in ", dimension, "."),
    )
}

/// The text complete-command completes, how many completions are told at most, and how long the
/// server is given, in milliseconds.
pub fn completion_args(args: &Json) -> (r: Result<(String, u64, u64), Failure>)
    ensures
        match r {
            Ok((text, limit, timeout_ms)) => text_of(args@, "text"@) == Ok::<Seq<char>, FailureView>(
                text@,
            ) && limit == nat_or_of(args@, "limit"@, 60) && timeout_ms == nat_or_of(
                args@,
                "timeoutMs"@,
                5_000,
            ),
            Err(failure) => text_of(args@, "text"@) == Err::<Seq<char>, FailureView>(failure@),
        },
{
    match text(args, "text") {
        Ok(asked) => Ok(
            (asked.to_owned(), nat_or(args, "limit", 60), nat_or(args, "timeoutMs", 5_000)),
        ),
        Err(failure) => Err(failure),
    }
}

/// The server switch-server goes to, the command that goes there, and how long it may take, in
/// milliseconds.
pub fn switch_args(args: &Json) -> (r: Result<(String, String, u64), Failure>)
    ensures
        match r {
            Ok((target, command, timeout_ms)) => text_of(args@, "target"@) == Ok::<
                Seq<char>,
                FailureView,
            >(target@) && command@ == "server "@ + target@ && timeout_ms == nat_or_of(
                args@,
                "timeoutMs"@,
                30_000,
            ),
            Err(failure) => text_of(args@, "target"@) == Err::<Seq<char>, FailureView>(failure@),
        },
{
    match text(args, "target") {
        Ok(target) => Ok(
            (target.to_owned(), cat2("server ", target), nat_or(args, "timeoutMs", 30_000)),
        ),
        Err(failure) => Err(failure),
    }
}

/// A completion is told by what it would put and the words shown with it, in the order they are put in
/// and no more than were asked for.
pub proof fn a_completion_is_told_with_its_tooltip(
    list: Seq<Suggestion>,
    order: Seq<int>,
    limit: int,
    i: int,
)
    requires
        0 <= limit,
        0 <= i < order.len(),
        i < limit,
    ensures
        ({
            let told = completion_docs(list, order, limit);
            &&& told.len() <= limit && told.len() <= order.len()
            &&& order.len() <= limit ==> told.len() == order.len()
            &&& order.len() > limit ==> told.len() == limit
            &&& told[i].text_at("name"@) == Some(list[order[i]].text@)
            &&& told[i].at("tooltip"@) == Some(list[order[i]].tooltip@)
        }),
{
    broadcast use {a_field_reads_back, an_empty_object_has_nothing};
    reveal_strlit("name");
    reveal_strlit("tooltip");
    assert("name"@.len() == 4);
    assert("tooltip"@.len() == 7);
}

/// What a proxy says when the bot is there already, and when it cannot be sent there.
pub proof fn a_proxy_says_where_the_bot_is(line: Seq<char>)
    ensures
        is_already_there(line) <==> occurs(lowercase_of(line), "already connected"@),
        occurs(lowercase_of(line), "does not exist"@) ==> is_refused(line),
        occurs(lowercase_of(line), "doesn't exist"@) ==> is_refused(line),
        occurs(lowercase_of(line), "unable to connect"@) ==> is_refused(line),
        occurs(lowercase_of(line), "no available server"@) ==> is_refused(line),
        occurs(lowercase_of(line), "not a valid server"@) ==> is_refused(line),
        is_refused(line) ==> occurs(lowercase_of(line), "does not exist"@) || occurs(
            lowercase_of(line),
            "doesn't exist"@,
        ) || occurs(lowercase_of(line), "doesnot exist"@) || occurs(
            lowercase_of(line),
            "does n't exist"@,
        ) || occurs(lowercase_of(line), "unable to connect"@) || occurs(
            lowercase_of(line),
            "no available server"@,
        ) || occurs(lowercase_of(line), "not a valid server"@),
{
    let all = refusals();
    assert(all[0] == "does not exist"@ && all[1] == "doesn't exist"@ && all[2] == "doesnot exist"@
        && all[3] == "does n't exist"@ && all[4] == "unable to connect"@ && all[5]
        == "no available server"@ && all[6] == "not a valid server"@);
}

/// A switch that timed out says where to and how long it waited.
pub proof fn a_switch_says_where_it_did_not_arrive(target: Seq<char>, timeout_ms: u64)
    ensures
        switch_timeout(target, timeout_ms).code == "SWITCH_TIMEOUT"@,
        switch_timeout(target, timeout_ms).message == "The bot did not arrive on \""@ + target
            + "\" within "@ + dec(timeout_ms as int)
            + "ms. Check read-chat for what the proxy said and get-bot-status for the connection state."@,
{
}

} // verus!
