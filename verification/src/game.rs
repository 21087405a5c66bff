//! The world the bot is in, and one connection from its join to its end.
use vstd::prelude::*;

use crate::calls::{said, Answer, AnswerView, Failure, FailureView, Outcome};
use crate::json::{a_field_reads_back, an_empty_object_has_nothing, Doc, Json, Number};
use crate::words::{cat3, cat4, cat5, dec, decimal, same};

verus! {

/// The world the bot is in, while it is in one.
pub struct Game {
    /// Which connection this is. A disconnect from the one before can arrive after this one has
    /// taken its place, and must not be read as this one ending.
    pub generation: u64,
    pub address: String,
    pub username: String,
    pub spawned: bool,
    /// Set when the server told us to leave, so the disconnect that follows reads as leaving and
    /// not as being dropped.
    pub leaving: bool,
    pub cause_of_death: Option<String>,
}

/// What the client sees of the world it is in.
pub struct Seen {
    pub x: Number,
    pub y: Number,
    pub z: Number,
    pub dead: bool,
    pub game_mode: String,
    pub dimension: Option<String>,
}

/// A text that may be missing.
pub open spec fn text_of(text: Option<String>) -> Option<Seq<char>> {
    match text {
        Some(text) => Some(text@),
        None => None,
    }
}

/// A status with the game it is in: the address and the name, and what is seen of the world while
/// the bot is spawned into it.
pub open spec fn described(status: Doc, game: Game, seen: Option<Seen>) -> Doc {
    let named = status.with("address"@, Doc::Text(game.address@)).with(
        "username"@,
        Doc::Text(game.username@),
    );
    match seen {
        Some(seen) => if game.spawned {
            named.with(
                "position"@,
                Doc::object().with("x"@, Doc::Number(seen.x)).with("y"@, Doc::Number(seen.y)).with(
                    "z"@,
                    Doc::Number(seen.z),
                ),
            ).with("dead"@, Doc::Bool(seen.dead)).with_some(
                "causeOfDeath"@,
                match game.cause_of_death {
                    Some(cause) => Some(Doc::Text(cause@)),
                    None => None,
                },
            ).with("gameMode"@, Doc::Text(seen.game_mode@)).with_some(
                "dimension"@,
                match seen.dimension {
                    Some(dimension) => Some(Doc::Text(dimension@)),
                    None => None,
                },
            )
        } else {
            named
        },
        None => named,
    }
}

impl Game {
    /// A connection that has just been asked for.
    pub fn new(generation: u64, address: String, username: String) -> (r: Game)
        ensures
            r.generation == generation,
            r.address == address,
            r.username == username,
            !r.spawned,
            !r.leaving,
            r.cause_of_death is None,
    {
        Game {
            generation,
            address,
            username,
            spawned: false,
            leaving: false,
            cause_of_death: None,
        }
    }

    /// Spawned, and still holding the world. A connection that ends strips the player of its world
    /// before the disconnect is heard of.
    pub fn spawned(&self, holding: bool) -> (r: bool)
        ensures
            r == (self.spawned && holding),
    {
        self.spawned && holding
    }

    /// A proxy moving the bot takes the connection back to configuration, and the player with it
    /// until the next login.
    pub fn reconfiguring(&mut self)
        ensures
            *final(self) == (Game { spawned: false, ..*old(self) }),
    {
        self.spawned = false;
    }

    pub fn arrived(&mut self)
        ensures
            *final(self) == (Game { spawned: true, ..*old(self) }),
    {
        self.spawned = true;
    }

    /// Up again, so the last death no longer describes the bot.
    pub fn forget_death(&mut self)
        ensures
            *final(self) == (Game { cause_of_death: None, ..*old(self) }),
    {
        self.cause_of_death = None;
    }

    pub fn describe(&self, status: Json, seen: Option<Seen>) -> (r: Json)
        ensures
            r@ == described(status@, *self, seen),
    {
        let named = status.with("address", Json::Text(self.address.clone())).with(
            "username",
            Json::Text(self.username.clone()),
        );
        match seen {
            Some(seen) => {
                if !self.spawned {
                    return named;
                }
                let position = Json::object().with("x", Json::Number(seen.x)).with(
                    "y",
                    Json::Number(seen.y),
                ).with("z", Json::Number(seen.z));
                let cause = match &self.cause_of_death {
                    Some(cause) => Some(Json::Text(cause.clone())),
                    None => None,
                };
                let dimension = match seen.dimension {
                    Some(dimension) => Some(Json::Text(dimension)),
                    None => None,
                };
                named.with("position", position).with("dead", Json::Bool(seen.dead)).with_some(
                    "causeOfDeath",
                    cause,
                ).with("gameMode", Json::Text(seen.game_mode)).with_some("dimension", dimension)
            },
            None => named,
        }
    }
}

/// Five seconds of client ticks.
pub const REFRESH_TICKS: u64 = 100;

/// What a caller reads of the world from a status.
pub struct Glimpse {
    pub dimension: Option<String>,
    pub game_mode: String,
    pub dead: bool,
}

impl Glimpse {
    pub open spec fn alike(&self, other: &Glimpse) -> bool {
        text_of(self.dimension) == text_of(other.dimension) && self.game_mode@ == other.game_mode@
            && self.dead == other.dead
    }
}

fn same_text(a: &Option<String>, b: &Option<String>) -> (r: bool)
    ensures
        r == (text_of(*a) == text_of(*b)),
{
    match (a, b) {
        (Some(a), Some(b)) => same(a.as_str(), b.as_str()),
        (None, None) => true,
        _ => false,
    }
}

/// Whether a status is due: what a caller reads from it has changed, or it is old.
pub open spec fn status_due(reported: Option<(Glimpse, u64)>, seen: Glimpse, now: u64) -> bool {
    match reported {
        Some((last, at)) => !last.alike(&seen) || (now >= at && now - at >= REFRESH_TICKS),
        None => true,
    }
}

/// Send the status again when what a caller reads from it has changed, and every few seconds anyway.
///
/// A move between servers or dimensions behind a proxy is no join, no death and no disconnect, and a
/// status that went out on those alone went on naming the place the bot had left.
pub fn notice_world(reported: &mut Option<(Glimpse, u64)>, seen: Option<Glimpse>, now: u64) -> (due:
    bool)
    ensures
        match seen {
            Some(seen) => due == status_due(*old(reported), seen, now) && *final(reported) == if due {
                Some((seen, now))
            } else {
                *old(reported)
            },
            None => !due && *final(reported) is None,
        },
{
    match seen {
        Some(seen) => {
            let due: bool = match reported {
                Some((last, at)) => {
                    let at: u64 = *at;
                    !(same_text(&last.dimension, &seen.dimension) && same(
                        last.game_mode.as_str(),
                        seen.game_mode.as_str(),
                    ) && last.dead == seen.dead) || (now >= at && now - at >= REFRESH_TICKS)
                },
                None => true,
            };
            if due {
                *reported = Some((seen, now));
            }
            due
        },
        None => {
            *reported = None;
            false
        },
    }
}

/// A join as a message asks for it.
pub struct Connect {
    pub host: String,
    pub port: u16,
    pub username: String,
    pub spawn_timeout_ms: u64,
    /// How long the whole call may take: the spawn, and two seconds to answer in.
    pub deadline_ms: u128,
}

/// What a join message says, with a name to fall back on.
pub fn connect(message: &Json, bot_name: &str) -> (r: Connect)
    ensures
        r.host@ == match message@.text_at("host"@) {
            Some(host) => host,
            None => "127.0.0.1"@,
        },
        r.port == match message@.nat_at("port"@) {
            Some(port) => port as int % 65536,
            None => 25565,
        },
        r.username@ == match message@.text_at("username"@) {
            Some(name) => name,
            None => bot_name@,
        },
        r.spawn_timeout_ms == match message@.nat_at("spawnTimeoutMs"@) {
            Some(ms) => ms,
            None => 60_000,
        },
        r.deadline_ms == r.spawn_timeout_ms + 2000,
{
    let port: u64 = match message.nat_at("port") {
        Some(port) => port,
        None => 25565,
    };
    let spawn_timeout_ms: u64 = match message.nat_at("spawnTimeoutMs") {
        Some(ms) => ms,
        None => 60_000,
    };
    Connect {
        host: match message.text_at("host") {
            Some(host) => host.to_owned(),
            None => "127.0.0.1".to_owned(),
        },
        port: (port % 65536) as u16,
        username: match message.text_at("username") {
            Some(name) => name.to_owned(),
            None => bot_name.to_owned(),
        },
        spawn_timeout_ms,
        deadline_ms: spawn_timeout_ms as u128 + 2000,
    }
}

/// Leaving as a message asks for it: the call it is, how long that may take, the status it leaves the
/// bot in, and what is answered.
pub struct Disconnect {
    pub id: Json,
    pub deadline_ms: u64,
    pub state: &'static str,
    pub reason: &'static str,
    pub answer: Answer,
}

/// What a leave message says. Told to leave, so nothing went wrong: linked and in no world is idle.
pub fn disconnect(message: &Json) -> (r: Disconnect)
    ensures
        r.id@ == match message@.at("id"@) {
            Some(id) => id,
            None => Doc::Null,
        },
        r.deadline_ms == 10_000,
        r.state@ == "idle"@,
        r.reason@ == "asked to leave"@,
        r.answer@ == AnswerView::plain("Left the server"@),
{
    Disconnect {
        id: match message.get("id") {
            Some(id) => id.copy(),
            None => Json::Null,
        },
        deadline_ms: 10_000,
        state: "idle",
        reason: "asked to leave",
        answer: Answer::text("Left the server".to_owned()),
    }
}

/// The address a join dials.
pub fn address(host: &str, port: u16) -> (r: String)
    ensures
        r@ == host@ + ":"@ + dec(port as int),
{
    cat3(host, ":", decimal(port as u64).as_str())
}

/// What happens to a connection that a join has to decide on.
pub enum Joining {
    /// The address did not resolve, for a reason.
    Unresolved(String),
    /// The connection's own end of the join: spawned, or why not.
    Answered(Result<(), Failure>),
    /// Nothing was heard in time.
    TimedOut,
}

/// What is left to do of a join once it is decided.
#[derive(Clone, Copy, PartialEq, Eq, Structural)]
pub enum Afterwards {
    Nothing,
    /// Say that the bot is ready.
    SayReady,
    /// Leave the connection that did not come to anything.
    Leave,
}

/// What a join comes to.
pub open spec fn join_outcome(address: Seq<char>, username: Seq<char>, timeout_ms: u64, end: Joining) -> (
    Afterwards,
    Result<AnswerView, FailureView>,
) {
    match end {
        Joining::Unresolved(error) => (
            Afterwards::Nothing,
            Err(
                FailureView::refusal(
                    "JOIN_FAILED_DIAL"@,
                    address + " did not resolve: "@ + error@,
                ),
            ),
        ),
        Joining::Answered(Ok(())) => (
            Afterwards::SayReady,
            Ok(AnswerView::plain("Joined "@ + address + " as "@ + username)),
        ),
        Joining::Answered(Err(failure)) => (Afterwards::Nothing, Err(failure@)),
        Joining::TimedOut => (
            Afterwards::Leave,
            Err(
                FailureView::refusal(
                    "JOIN_FAILED_SPAWN"@,
                    "did not spawn on "@ + address + " within "@ + dec(timeout_ms as int) + "ms"@,
                ),
            ),
        ),
    }
}

pub fn join(address: &str, username: &str, timeout_ms: u64, end: Joining) -> (r: (Afterwards, Outcome))
    ensures
        (r.0, said(r.1)) == join_outcome(address@, username@, timeout_ms, end),
{
    match end {
        Joining::Unresolved(error) => (
            Afterwards::Nothing,
            Err(
                Failure::refused(
                    "JOIN_FAILED_DIAL",
                    cat3(address, " did not resolve: ", error.as_str()),
                ),
            ),
        ),
        Joining::Answered(Ok(())) => (
            Afterwards::SayReady,
            Ok(Answer::text(cat4("Joined ", address, " as ", username))),
        ),
        Joining::Answered(Err(failure)) => (Afterwards::Nothing, Err(failure)),
        Joining::TimedOut => (
            Afterwards::Leave,
            Err(
                Failure::refused(
                    "JOIN_FAILED_SPAWN",
                    cat5(
                        "did not spawn on ",
                        address,
                        " within ",
                        decimal(timeout_ms).as_str(),
                        "ms",
                    ),
                ),
            ),
        ),
    }
}

/// What a client says about one connection.
pub enum Event {
    Login,
    Spawn,
    Tick,
    /// The player died, with the message the server sent where it sent one.
    Death(Option<String>),
    Chat,
    /// A packet that the bot keeps something of.
    Packet,
    ConnectionFailed(String),
    /// The connection ended, with the reason where one was given, and whether the login handshake
    /// had left a profile on the player.
    Disconnect { reason: Option<String>, profile: bool },
    /// There is nothing more to hear.
    Closed,
    Other,
}

/// What is to be done about an event, in order.
pub enum Act {
    /// Answer the join that is waiting.
    Joined(Result<(), Failure>),
    /// Mark the game as spawned.
    Spawned,
    /// Keep what killed the bot.
    Died(Option<String>),
    CountTick,
    Flush,
    NoticeWorld,
    Status { state: &'static str, reason: Option<String> },
    PushChat,
    /// Hand the packet to the window and the rest of the screen.
    Keep,
    /// Let the game go.
    DropGame,
    CloseFeeds,
    /// Hear no more of this connection.
    Stop,
}

pub enum ActView {
    Joined(Option<FailureView>),
    Spawned,
    Died(Option<Seq<char>>),
    CountTick,
    Flush,
    NoticeWorld,
    Status(Seq<char>, Option<Seq<char>>),
    PushChat,
    Keep,
    DropGame,
    CloseFeeds,
    Stop,
}

impl View for Act {
    type V = ActView;

    open spec fn view(&self) -> ActView {
        match self {
            Act::Joined(Ok(())) => ActView::Joined(None),
            Act::Joined(Err(failure)) => ActView::Joined(Some(failure@)),
            Act::Spawned => ActView::Spawned,
            Act::Died(cause) => ActView::Died(text_of(*cause)),
            Act::CountTick => ActView::CountTick,
            Act::Flush => ActView::Flush,
            Act::NoticeWorld => ActView::NoticeWorld,
            Act::Status { state, reason } => ActView::Status(state@, text_of(*reason)),
            Act::PushChat => ActView::PushChat,
            Act::Keep => ActView::Keep,
            Act::DropGame => ActView::DropGame,
            Act::CloseFeeds => ActView::CloseFeeds,
            Act::Stop => ActView::Stop,
        }
    }
}

/// The views of a list of acts.
pub open spec fn acts(list: Seq<Act>) -> Seq<ActView> {
    Seq::new(list.len(), |i: int| list[i]@)
}

/// One connection, as far as deciding what its events mean goes.
#[derive(Clone, Copy, PartialEq, Eq, Structural)]
pub struct Pump {
    /// The join is still waiting for its answer.
    pub joining: bool,
    pub logged_in: bool,
}

/// What a disconnect of a connection reads as.
pub open spec fn reason_of(reason: Option<String>) -> Seq<char> {
    match reason {
        Some(reason) => reason@,
        None => "disconnected"@,
    }
}

pub open spec fn when(condition: bool, acts: Seq<ActView>) -> Seq<ActView> {
    if condition {
        acts
    } else {
        Seq::empty()
    }
}

impl Pump {
    pub open spec fn after(self, event: Event) -> Pump {
        match event {
            Event::Login => Pump { logged_in: true, ..self },
            Event::Spawn => Pump { joining: false, ..self },
            Event::ConnectionFailed(_) => Pump { joining: false, ..self },
            Event::Disconnect { .. } => Pump { joining: false, ..self },
            _ => self,
        }
    }

    /// What an event of a connection calls for, with whether the connection is the one the game is
    /// on, and whether the bot was told to leave that one.
    pub open spec fn answer(self, event: Event, mine: bool, leaving: bool) -> Seq<ActView> {
        match event {
            Event::Login => Seq::empty(),
            Event::Spawn => when(mine, seq![ActView::Spawned]) + when(
                self.joining,
                seq![ActView::Joined(None)],
            ),
            Event::Tick => seq![ActView::CountTick, ActView::Flush, ActView::NoticeWorld],
            Event::Death(cause) => when(mine, seq![ActView::Died(text_of(cause))]) + seq![
                ActView::Status("ready"@, None),
            ],
            Event::Chat => seq![ActView::PushChat],
            Event::Packet => when(mine, seq![ActView::Keep]),
            Event::ConnectionFailed(error) => when(
                self.joining,
                seq![
                    ActView::Joined(Some(FailureView::refusal("JOIN_FAILED_DIAL"@, error@))),
                ],
            ) + seq![ActView::Stop],
            Event::Disconnect { reason, profile } => {
                let first = if self.joining {
                    seq![
                        ActView::Joined(
                            Some(
                                FailureView::refusal(
                                    if self.logged_in || (mine && profile) {
                                        "JOIN_FAILED_SPAWN"@
                                    } else {
                                        "JOIN_FAILED_LOGIN"@
                                    },
                                    reason_of(reason),
                                ),
                            ),
                        ),
                    ]
                } else {
                    when(
                        mine && !leaving,
                        seq![ActView::Status("disconnected"@, Some(reason_of(reason)))],
                    )
                };
                first + when(mine, seq![ActView::DropGame, ActView::CloseFeeds]) + seq![
                    ActView::Stop,
                ]
            },
            Event::Closed => seq![ActView::Stop],
            Event::Other => Seq::empty(),
        }
    }

    pub fn new() -> (r: Pump)
        ensures
            r.joining,
            !r.logged_in,
    {
        Pump { joining: true, logged_in: false }
    }

    /// Take one event of a connection.
    ///
    /// Kicked before the login finished is a login refused; after it, a world that never came. The
    /// login event comes after configuration, so a server that took the login and kicked from
    /// configuration has sent no event that says so: the profile the login handshake put on the
    /// player says it. Death does not end the connection, so the state stays ready and the status
    /// goes again.
    pub fn pump(&mut self, event: Event, mine: bool, leaving: bool) -> (r: Vec<Act>)
        ensures
            *final(self) == old(self).after(event),
            acts(r@) == old(self).answer(event, mine, leaving),
    {
        let mut out: Vec<Act> = Vec::new();
        let ghost given = event;
        match event {
            Event::Login => {
                self.logged_in = true;
            },
            Event::Spawn => {
                if mine {
                    out.push(Act::Spawned);
                }
                if self.joining {
                    self.joining = false;
                    out.push(Act::Joined(Ok(())));
                }
            },
            Event::Tick => {
                out.push(Act::CountTick);
                out.push(Act::Flush);
                out.push(Act::NoticeWorld);
            },
            Event::Death(cause) => {
                if mine {
                    out.push(Act::Died(cause));
                }
                out.push(Act::Status { state: "ready", reason: None });
            },
            Event::Chat => {
                out.push(Act::PushChat);
            },
            Event::Packet => {
                if mine {
                    out.push(Act::Keep);
                }
            },
            Event::ConnectionFailed(error) => {
                if self.joining {
                    self.joining = false;
                    out.push(Act::Joined(Err(Failure::refused("JOIN_FAILED_DIAL", error))));
                }
                out.push(Act::Stop);
            },
            Event::Disconnect { reason, profile } => {
                let reason = match reason {
                    Some(reason) => reason,
                    None => "disconnected".to_owned(),
                };
                if self.joining {
                    self.joining = false;
                    let code: &str = if self.logged_in || (mine && profile) {
                        "JOIN_FAILED_SPAWN"
                    } else {
                        "JOIN_FAILED_LOGIN"
                    };
                    out.push(Act::Joined(Err(Failure::refused(code, reason))));
                } else if mine && !leaving {
                    out.push(Act::Status { state: "disconnected", reason: Some(reason) });
                }
                if mine {
                    out.push(Act::DropGame);
                    out.push(Act::CloseFeeds);
                }
                out.push(Act::Stop);
            },
            Event::Closed => {
                out.push(Act::Stop);
            },
            Event::Other => {},
        }
        proof {
            assert(acts(out@) =~= old(self).answer(given, mine, leaving));
        }
        out
    }
}

/// How often the join was answered over a run of events.
pub open spec fn joins_answered(pump: Pump, events: Seq<(Event, bool, bool)>) -> nat
    decreases events.len(),
{
    if events.len() == 0 {
        0
    } else {
        let (event, mine, leaving) = events[0];
        joins_answered(pump.after(event), events.drop_first()) + if pump.joining && !pump.after(
            event,
        ).joining {
            1nat
        } else {
            0nat
        }
    }
}

/// An answer to the join is among the acts exactly when the join stops waiting.
pub proof fn the_join_is_answered_as_it_stops_waiting(pump: Pump, event: Event, mine: bool, leaving: bool)
    ensures
        (exists|i: int|
            0 <= i < pump.answer(event, mine, leaving).len() && (#[trigger] pump.answer(
                event,
                mine,
                leaving,
            )[i]) is Joined) == (pump.joining && !pump.after(event).joining),
{
    let list = pump.answer(event, mine, leaving);
    if pump.joining && !pump.after(event).joining {
        match event {
            Event::Spawn => {
                assert(list.last() is Joined);
            },
            _ => {
                assert(list[0] is Joined);
            },
        }
    }
}

/// A join is answered once at most, whatever its connection says.
pub proof fn a_join_is_answered_once(pump: Pump, events: Seq<(Event, bool, bool)>)
    ensures
        joins_answered(pump, events) <= 1,
        !pump.joining ==> joins_answered(pump, events) == 0,
    decreases events.len(),
{
    if events.len() > 0 {
        a_join_is_answered_once(pump.after(events[0].0), events.drop_first());
    }
}

/// An event of a connection that the game is no longer on neither changes the game nor says that
/// the bot was dropped.
pub proof fn an_old_connection_is_not_this_one_ending(pump: Pump, event: Event, leaving: bool)
    ensures
        forall|i: int|
            0 <= i < pump.answer(event, false, leaving).len() ==> {
                let act = #[trigger] pump.answer(event, false, leaving)[i];
                &&& act !is DropGame
                &&& act !is Spawned
                &&& act !is Died
                &&& act !is CloseFeeds
                &&& event is Disconnect ==> act !is Status
            },
{
}

/// What is told of the game: the address and the name, and in the world where the bot is, how it is and
/// what killed it.
pub proof fn the_game_is_told_as_it_stands(status: Doc, game: Game, seen: Option<Seen>)
    requires
        status is Object,
        forall|name: Seq<char>|
            name == "address"@ || name == "username"@ || name == "position"@ || name == "dead"@ || name
                == "causeOfDeath"@ || name == "gameMode"@ || name == "dimension"@ ==> (
            #[trigger] status.at(name)) is None,
    ensures
        ({
            let told = described(status, game, seen);
            &&& told.text_at("address"@) == Some(game.address@)
            &&& told.text_at("username"@) == Some(game.username@)
            &&& seen is None || !game.spawned ==> told.at("position"@) is None && told.at("dead"@) is None
            &&& game.spawned ==> (seen matches Some(seen) ==> {
                &&& told.at("position"@)->0.at("x"@) == Some(Doc::Number(seen.x))
                &&& told.at("position"@)->0.at("y"@) == Some(Doc::Number(seen.y))
                &&& told.at("position"@)->0.at("z"@) == Some(Doc::Number(seen.z))
                &&& told.bool_at("dead"@) == Some(seen.dead)
                &&& told.text_at("gameMode"@) == Some(seen.game_mode@)
                &&& game.cause_of_death matches Some(cause) ==> told.text_at("causeOfDeath"@) == Some(
                    cause@,
                )
                &&& game.cause_of_death is None ==> told.at("causeOfDeath"@) is None
                &&& seen.dimension matches Some(dimension) ==> told.text_at("dimension"@) == Some(
                    dimension@,
                )
            })
        }),
{
    broadcast use {a_field_reads_back, an_empty_object_has_nothing};
    reveal_strlit("address");
    reveal_strlit("username");
    reveal_strlit("position");
    reveal_strlit("dead");
    reveal_strlit("causeOfDeath");
    reveal_strlit("gameMode");
    reveal_strlit("dimension");
    reveal_strlit("x");
    reveal_strlit("y");
    reveal_strlit("z");
    assert("address"@.len() == 7);
    assert("username"@.len() == 8);
    assert("position"@.len() == 8);
    assert("dead"@.len() == 4);
    assert("causeOfDeath"@.len() == 12);
    assert("gameMode"@.len() == 8);
    assert("dimension"@.len() == 9);
    assert("x"@.len() == 1);
    assert("y"@.len() == 1);
    assert("z"@.len() == 1);
    assert("username"@[0] != "position"@[0]);
    assert("username"@[0] != "gameMode"@[0]);
    assert("position"@[0] != "gameMode"@[0]);
    assert("x"@[0] != "y"@[0]);
    assert("x"@[0] != "z"@[0]);
    assert("y"@[0] != "z"@[0]);
    assert(status.at("address"@) is None && status.at("username"@) is None && status.at("position"@) is None
        && status.at("dead"@) is None && status.at("causeOfDeath"@) is None && status.at("gameMode"@) is None
        && status.at("dimension"@) is None);
}

/// A status is due where there was none, where what a caller reads of it changed, and after five seconds
/// of ticks anyway.
pub proof fn a_status_is_due_when_something_changed(last: Glimpse, at: u64, seen: Glimpse, now: u64)
    ensures
        status_due(None, seen, now),
        last.dead != seen.dead ==> status_due(Some((last, at)), seen, now),
        last.game_mode@ != seen.game_mode@ ==> status_due(Some((last, at)), seen, now),
        text_of(last.dimension) != text_of(seen.dimension) ==> status_due(Some((last, at)), seen, now),
        now >= at + REFRESH_TICKS ==> status_due(Some((last, at)), seen, now),
        last.dead == seen.dead && last.game_mode@ == seen.game_mode@ && text_of(last.dimension)
            == text_of(seen.dimension) && at <= now < at + REFRESH_TICKS ==> !status_due(
            Some((last, at)),
            seen,
            now,
        ),
        REFRESH_TICKS == 100,
{
}

/// What a join comes to: joined where the bot spawned, refused for the reason the connection gave, for an
/// address that did not resolve, and for a spawn that did not come in time, which leaves.
pub proof fn a_join_comes_to_what_happened(
    address: Seq<char>,
    username: Seq<char>,
    timeout_ms: u64,
    end: Joining,
)
    ensures
        ({
            let (afterwards, outcome) = join_outcome(address, username, timeout_ms, end);
            &&& end matches Joining::Answered(Ok(())) ==> outcome is Ok && afterwards
                == Afterwards::SayReady
            &&& end matches Joining::Answered(Err(failure)) ==> outcome == Err::<
                AnswerView,
                FailureView,
            >(failure@) && afterwards == Afterwards::Nothing
            &&& end is Unresolved ==> (outcome matches Err(failure) && failure.code
                == "JOIN_FAILED_DIAL"@) && afterwards == Afterwards::Nothing
            &&& end is TimedOut ==> (outcome matches Err(failure) && failure.code
                == "JOIN_FAILED_SPAWN"@) && afterwards == Afterwards::Leave
        }),
{
}

/// What each event of a connection makes the bot do.
pub proof fn each_event_is_answered(pump: Pump, event: Event, mine: bool, leaving: bool)
    ensures
        ({
            let acts = pump.answer(event, mine, leaving);
            &&& event is Tick ==> acts == seq![
                ActView::CountTick,
                ActView::Flush,
                ActView::NoticeWorld,
            ]
            &&& event is Chat ==> acts == seq![ActView::PushChat]
            &&& event is Packet && mine ==> acts == seq![ActView::Keep]
            &&& event is Packet && !mine ==> acts.len() == 0
            &&& event is Spawn && mine ==> acts.contains(ActView::Spawned)
            &&& event is Spawn && pump.joining ==> acts.contains(ActView::Joined(None))
            &&& event matches Event::Death(cause) ==> acts.contains(ActView::Status("ready"@, None))
                && (mine ==> acts.contains(ActView::Died(text_of(cause))))
            &&& event is Closed ==> acts == seq![ActView::Stop]
            &&& event is Disconnect ==> acts.last() == ActView::Stop && (mine ==> acts.contains(
                ActView::DropGame,
            ) && acts.contains(ActView::CloseFeeds))
            &&& event matches Event::Disconnect { reason, profile } ==> {
                &&& pump.joining && pump.logged_in ==> acts[0] == ActView::Joined(
                    Some(FailureView::refusal("JOIN_FAILED_SPAWN"@, reason_of(reason))),
                )
                &&& pump.joining && !pump.logged_in && !mine ==> acts[0] == ActView::Joined(
                    Some(FailureView::refusal("JOIN_FAILED_LOGIN"@, reason_of(reason))),
                )
                &&& !pump.joining && mine && !leaving ==> acts[0] == ActView::Status(
                    "disconnected"@,
                    Some(reason_of(reason)),
                )
                &&& !pump.joining && mine && leaving ==> acts[0] == ActView::DropGame
                &&& !pump.joining && !mine ==> acts == seq![ActView::Stop]
            }
            &&& event matches Event::ConnectionFailed(error) ==> acts.last() == ActView::Stop && (
            pump.joining ==> acts[0] == ActView::Joined(
                Some(FailureView::refusal("JOIN_FAILED_DIAL"@, error@)),
            ))
        }),
        event is Login ==> pump.after(event).logged_in && pump.after(event).joining == pump.joining,
        event is Spawn || event is Disconnect || event is ConnectionFailed ==> !pump.after(
            event,
        ).joining,
        event is Tick || event is Chat || event is Packet ==> pump.after(event) == pump,
{
    let acts = pump.answer(event, mine, leaving);
    if event is Spawn {
        if mine {
            assert(acts[0] == ActView::Spawned);
        }
        if pump.joining {
            assert(acts[acts.len() - 1] == ActView::Joined(None));
        }
    }
    if let Event::Death(cause) = event {
        assert(acts[acts.len() - 1] == ActView::Status("ready"@, None));
        if mine {
            assert(acts[0] == ActView::Died(text_of(cause)));
        }
    }
    if event is Disconnect {
        if mine {
            assert(acts[acts.len() - 2] == ActView::CloseFeeds);
            assert(acts[acts.len() - 3] == ActView::DropGame);
        }
        if !pump.joining && !mine {
            assert(acts =~= seq![ActView::Stop]);
        }
    }
    if event is Packet {
        assert(acts =~= when(mine, seq![ActView::Keep]));
    }
}

/// What a join says of itself: where and as whom, what did not resolve and why, and how long it waited
/// for the spawn.
pub proof fn a_join_says_where_and_as_whom(
    address: Seq<char>,
    username: Seq<char>,
    timeout_ms: u64,
    end: Joining,
)
    ensures
        ({
            let outcome = join_outcome(address, username, timeout_ms, end).1;
            &&& end matches Joining::Answered(Ok(())) ==> (outcome matches Ok(answer) && answer.text
                == "Joined "@ + address + " as "@ + username)
            &&& end matches Joining::Unresolved(error) ==> (outcome matches Err(failure)
                && failure.message == address + " did not resolve: "@ + error@)
            &&& end is TimedOut ==> (outcome matches Err(failure) && failure.message
                == "did not spawn on "@ + address + " within "@ + dec(timeout_ms as int) + "ms"@)
        }),
{
}

} // verus!
