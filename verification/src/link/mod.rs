//! The link to the server: what is said on it, and what the server's messages ask for.
use vstd::prelude::*;

use crate::bot::{log, KIND, MINECRAFT_VERSION};
use crate::config::Config;
use crate::json::{a_field_reads_back, an_empty_object_has_nothing, docs, Doc, Json};
use crate::words::{cat2, cat3, dec, decimal, same};

pub mod frame;

verus! {

/// How long to wait before dialling again, once a wait was over: twice as long, up to the longest.
pub fn next_backoff(backoff: u64, longest: u64) -> (r: u64)
    ensures
        r == if 2 * backoff <= longest {
            2 * backoff
        } else {
            longest as int
        },
{
    if backoff <= longest / 2 {
        2 * backoff
    } else {
        longest
    }
}

/// The first thing said on a link.
pub open spec fn hello_of(
    config: Config,
    protocol: Doc,
    agent_version: Seq<char>,
    catalog_version: Doc,
    capabilities: Doc,
) -> Doc {
    Doc::object().with("t"@, Doc::Text("hello"@)).with(
        "protocols"@,
        Doc::list(seq![protocol]),
    ).with("botName"@, Doc::Text(config.bot_name@)).with("kind"@, Doc::Text(KIND@)).with(
        "agentVersion"@,
        Doc::Text(agent_version),
    ).with("mcVersion"@, Doc::Text(MINECRAFT_VERSION@)).with(
        "catalogVersion"@,
        catalog_version,
    ).with("capabilities"@, capabilities).with("features"@, Doc::list(Seq::empty())).with_some(
        "linkToken"@,
        match config.link_token {
            Some(token) => Some(Doc::Text(token@)),
            None => None,
        },
    )
}

/// The first thing said on a link. The token only when there is one: a server without a token
/// ignores the field, and a server with one refuses a hello that lacks it, so sending nothing is the
/// same as sending the wrong thing.
pub fn hello(
    config: &Config,
    protocol: Json,
    agent_version: &str,
    catalog_version: Json,
    capabilities: Json,
) -> (r: Json)
    ensures
        r@ == hello_of(*config, protocol@, agent_version@, catalog_version@, capabilities@),
{
    let token = match &config.link_token {
        Some(token) => Some(Json::Text(token.clone())),
        None => None,
    };
    let mut protocols: Vec<Json> = Vec::new();
    protocols.push(protocol);
    let none: Vec<Json> = Vec::new();
    proof {
        assert(docs(protocols@) =~= seq![protocol@]);
        assert(docs(none@) =~= Seq::empty());
    }
    Json::object().with("t", Json::text("hello")).with("protocols", Json::list(protocols)).with(
        "botName",
        Json::Text(config.bot_name.clone()),
    ).with("kind", Json::text(KIND)).with("agentVersion", Json::text(agent_version)).with(
        "mcVersion",
        Json::text(MINECRAFT_VERSION),
    ).with("catalogVersion", catalog_version).with("capabilities", capabilities).with(
        "features",
        Json::list(none),
    ).with_some("linkToken", token)
}

/// What a message of the server asks for.
pub enum Order {
    /// The server took our hello: the feeds it asks for, the session, each tool it will never call
    /// with the reason, and how often it asks for a run that stays open, in milliseconds.
    Accepted {
        feeds: Json,
        session: String,
        rejected: Vec<(String, String)>,
        repeat_flush_ms: Option<u64>,
    },
    /// The server closed the link.
    Closed { code: String, message: String },
    Connect,
    Disconnect,
    Call { id: Json, tool: String, deadline_ms: u64, args: Json },
    Cancel { id: Json, reason: String },
    Ping { nonce: Json },
    Shutdown { reason: String },
    Unknown(String),
}

pub enum OrderView {
    Accepted(Doc, Seq<char>, Seq<(Seq<char>, Seq<char>)>, Option<u64>),
    Closed(Seq<char>, Seq<char>),
    Connect,
    Disconnect,
    Call(Doc, Seq<char>, u64, Doc),
    Cancel(Doc, Seq<char>),
    Ping(Doc),
    Shutdown(Seq<char>),
    Unknown(Seq<char>),
}

/// The views of a list of pairs of texts.
pub open spec fn pairs(list: Seq<(String, String)>) -> Seq<(Seq<char>, Seq<char>)> {
    Seq::new(list.len(), |i: int| (list[i].0@, list[i].1@))
}

impl View for Order {
    type V = OrderView;

    open spec fn view(&self) -> OrderView {
        match self {
            Order::Accepted { feeds, session, rejected, repeat_flush_ms } => OrderView::Accepted(
                feeds@,
                session@,
                pairs(rejected@),
                *repeat_flush_ms,
            ),
            Order::Closed { code, message } => OrderView::Closed(code@, message@),
            Order::Connect => OrderView::Connect,
            Order::Disconnect => OrderView::Disconnect,
            Order::Call { id, tool, deadline_ms, args } => OrderView::Call(
                id@,
                tool@,
                *deadline_ms,
                args@,
            ),
            Order::Cancel { id, reason } => OrderView::Cancel(id@, reason@),
            Order::Ping { nonce } => OrderView::Ping(nonce@),
            Order::Shutdown { reason } => OrderView::Shutdown(reason@),
            Order::Unknown(kind) => OrderView::Unknown(kind@),
        }
    }
}

pub open spec fn text_or(message: Doc, name: Seq<char>, otherwise: Seq<char>) -> Seq<char> {
    match message.text_at(name) {
        Some(text) => text,
        None => otherwise,
    }
}

pub open spec fn field_or_null(message: Doc, name: Seq<char>) -> Doc {
    match message.at(name) {
        Some(value) => value,
        None => Doc::Null,
    }
}

/// The tools a hello was answered that the server will never call, each with the reason.
pub open spec fn rejections(message: Doc) -> Seq<(Seq<char>, Seq<char>)> {
    match message.items_at("rejectedTools"@) {
        Some(items) => Seq::new(
            items.len(),
            |i: int|
                (
                    text_or(items[i], "tool"@, "?"@),
                    text_or(items[i], "reason"@, "no reason given"@),
                ),
        ),
        None => Seq::empty(),
    }
}

/// What a message asks for.
pub open spec fn order_of(message: Doc) -> OrderView {
    let kind = text_or(message, "t"@, ""@);
    if kind == "helloOk"@ {
        OrderView::Accepted(
            match message.at("events"@) {
                Some(Doc::Object(fields, drawn)) => Doc::Object(fields, drawn),
                _ => Doc::object(),
            },
            text_or(message, "sessionId"@, "?"@),
            rejections(message),
            message.nat_at("repeatFlushMs"@),
        )
    } else if kind == "helloErr"@ || kind == "fault"@ {
        OrderView::Closed(text_or(message, "code"@, "?"@), text_or(message, "message"@, ""@))
    } else if kind == "connect"@ {
        OrderView::Connect
    } else if kind == "disconnect"@ {
        OrderView::Disconnect
    } else if kind == "call"@ {
        OrderView::Call(
            field_or_null(message, "id"@),
            text_or(message, "tool"@, ""@),
            match message.nat_at("deadlineMs"@) {
                Some(ms) => ms,
                None => 30_000,
            },
            field_or_null(message, "args"@),
        )
    } else if kind == "cancel"@ {
        OrderView::Cancel(
            field_or_null(message, "id"@),
            text_or(message, "reason"@, "cancelled"@),
        )
    } else if kind == "ping"@ {
        OrderView::Ping(field_or_null(message, "nonce"@))
    } else if kind == "shutdown"@ {
        OrderView::Shutdown(text_or(message, "reason"@, ""@))
    } else {
        OrderView::Unknown(kind)
    }
}

fn text(message: &Json, name: &str, otherwise: &str) -> (r: String)
    ensures
        r@ == text_or(message@, name@, otherwise@),
{
    match message.text_at(name) {
        Some(text) => text.to_owned(),
        None => otherwise.to_owned(),
    }
}

fn value(message: &Json, name: &str) -> (r: Json)
    ensures
        r@ == field_or_null(message@, name@),
{
    match message.get(name) {
        Some(value) => value.copy(),
        None => Json::Null,
    }
}

fn rejected(message: &Json) -> (r: Vec<(String, String)>)
    ensures
        pairs(r@) == rejections(message@),
{
    let mut out: Vec<(String, String)> = Vec::new();
    let ghost want = rejections(message@);
    match message.items_at("rejectedTools") {
        Some(items) => {
            let mut i: usize = 0;
            while i < items.len()
                invariant
                    i <= items@.len(),
                    out@.len() == i,
                    message@.items_at("rejectedTools"@) == Some(docs(items@)),
                    want == rejections(message@),
                    forall|k: int|
                        0 <= k < i ==> ((#[trigger] out@[k]).0@, out@[k].1@) == want[k],
                decreases items@.len() - i,
            {
                proof {
                    assert(docs(items@)[i as int] == items@[i as int]@);
                }
                out.push((text(&items[i], "tool", "?"), text(&items[i], "reason", "no reason given")));
                i += 1;
            }
        },
        None => {},
    }
    proof {
        assert(pairs(out@) =~= want);
    }
    out
}

/// What a message of the server asks for.
pub fn handle(message: &Json) -> (r: Order)
    ensures
        r@ == order_of(message@),
{
    let kind = text(message, "t", "");
    if same(kind.as_str(), "helloOk") {
        let feeds = match message.get("events") {
            Some(events) => match events {
                Json::Object(_, _) => events.copy(),
                _ => Json::object(),
            },
            None => Json::object(),
        };
        Order::Accepted {
            feeds,
            session: text(message, "sessionId", "?"),
            rejected: rejected(message),
            repeat_flush_ms: message.nat_at("repeatFlushMs"),
        }
    } else if same(kind.as_str(), "helloErr") || same(kind.as_str(), "fault") {
        Order::Closed { code: text(message, "code", "?"), message: text(message, "message", "") }
    } else if same(kind.as_str(), "connect") {
        Order::Connect
    } else if same(kind.as_str(), "disconnect") {
        Order::Disconnect
    } else if same(kind.as_str(), "call") {
        Order::Call {
            id: value(message, "id"),
            tool: text(message, "tool", ""),
            deadline_ms: match message.nat_at("deadlineMs") {
                Some(ms) => ms,
                None => 30_000,
            },
            args: value(message, "args"),
        }
    } else if same(kind.as_str(), "cancel") {
        Order::Cancel { id: value(message, "id"), reason: text(message, "reason", "cancelled") }
    } else if same(kind.as_str(), "ping") {
        Order::Ping { nonce: value(message, "nonce") }
    } else if same(kind.as_str(), "shutdown") {
        Order::Shutdown { reason: text(message, "reason", "") }
    } else {
        Order::Unknown(kind)
    }
}

/// What a ping is answered: its own nonce, the time, and how many calls are in flight.
pub fn pong(nonce: Json, ts: u64, busy: usize) -> (r: Json)
    ensures
        r@ == Doc::object().with("t"@, Doc::Text("pong"@)).with("nonce"@, nonce@).with(
            "ts"@,
            Doc::number(ts as int),
        ).with("busy"@, Doc::number(busy as int)),
{
    Json::object().with("t", Json::text("pong")).with("nonce", nonce).with(
        "ts",
        Json::count(ts),
    ).with("busy", Json::count(busy as u64))
}

/// What is logged of a frame whose document could not be read.
pub fn malformed(reason: &str) -> (r: Json)
    ensures
        r@ == Doc::object().with("t"@, Doc::Text("log"@)).with("level"@, Doc::Text("warn"@)).with(
            "message"@,
            Doc::Text("MALFORMED_JSON from the server, ignored: "@ + reason@),
        ),
{
    log("warn", cat2("MALFORMED_JSON from the server, ignored: ", reason).as_str())
}

/// What is logged of a frame of a type the server does not send.
pub fn bad_type(kind: u8) -> (r: Json)
    ensures
        r@ == Doc::object().with("t"@, Doc::Text("log"@)).with("level"@, Doc::Text("warn"@)).with(
            "message"@,
            Doc::Text("BAD_FRAME_TYPE "@ + dec(kind as int) + " from the server, ignored"@),
        ),
{
    log(
        "warn",
        cat3("BAD_FRAME_TYPE ", decimal(kind as u64).as_str(), " from the server, ignored").as_str(),
    )
}

/// Each message of the server is taken for what its type says, with what it carries.
pub proof fn each_message_says_its_own(message: Doc)
    ensures
        message.text_at("t"@) == Some("connect"@) ==> order_of(message) == OrderView::Connect,
        message.text_at("t"@) == Some("disconnect"@) ==> order_of(message) == OrderView::Disconnect,
        message.text_at("t"@) == Some("call"@) ==> (order_of(message) matches OrderView::Call(
            id,
            tool,
            deadline_ms,
            args,
        ) && {
            &&& message.at("id"@) matches Some(given) ==> id == given
            &&& message.text_at("tool"@) matches Some(named) ==> tool == named
            &&& message.nat_at("deadlineMs"@) matches Some(ms) ==> deadline_ms == ms
            &&& message.nat_at("deadlineMs"@) is None ==> deadline_ms == 30_000
            &&& message.at("args"@) matches Some(given) ==> args == given
            &&& message.at("args"@) is None ==> args == Doc::Null
        }),
        message.text_at("t"@) == Some("cancel"@) ==> (order_of(message) matches OrderView::Cancel(
            id,
            reason,
        ) && (message.at("id"@) matches Some(given) ==> id == given) && (message.text_at("reason"@) matches Some(
            words,
        ) ==> reason == words) && (message.text_at("reason"@) is None ==> reason == "cancelled"@)),
        message.text_at("t"@) == Some("ping"@) ==> (order_of(message) matches OrderView::Ping(nonce)
            && (message.at("nonce"@) matches Some(given) ==> nonce == given)),
        message.text_at("t"@) == Some("shutdown"@) ==> order_of(message) is Shutdown,
        message.text_at("t"@) == Some("helloErr"@) || message.text_at("t"@) == Some("fault"@) ==> (
        order_of(message) matches OrderView::Closed(code, words) && (message.text_at("code"@) matches Some(
            given,
        ) ==> code == given) && (message.text_at("message"@) matches Some(given) ==> words == given)),
        message.text_at("t"@) == Some("helloOk"@) ==> (order_of(message) matches OrderView::Accepted(
            feeds,
            session,
            rejected,
            _,
        ) && (message.text_at("sessionId"@) matches Some(given) ==> session == given) && (
        message.at("events"@) matches Some(given) ==> (given is Object ==> feeds == given)) && (
        message.items_at("rejectedTools"@) matches Some(items) ==> rejected.len() == items.len())),
        message.text_at("t"@) == Some("dance"@) ==> order_of(message) is Unknown,
{
    reveal_strlit("helloOk");
    reveal_strlit("helloErr");
    reveal_strlit("fault");
    reveal_strlit("connect");
    reveal_strlit("disconnect");
    reveal_strlit("call");
    reveal_strlit("cancel");
    reveal_strlit("ping");
    reveal_strlit("shutdown");
    reveal_strlit("dance");
    assert("helloOk"@.len() == 7);
    assert("helloErr"@.len() == 8);
    assert("fault"@.len() == 5);
    assert("connect"@.len() == 7);
    assert("disconnect"@.len() == 10);
    assert("call"@.len() == 4);
    assert("cancel"@.len() == 6);
    assert("ping"@.len() == 4);
    assert("shutdown"@.len() == 8);
    assert("dance"@.len() == 5);
    assert("helloOk"@[0] != "connect"@[0]);
    assert("helloErr"@[0] != "shutdown"@[0]);
    assert("fault"@[0] != "dance"@[0]);
    assert("call"@[0] != "ping"@[0]);
}

/// A tool the server rejected is told with its reason.
pub proof fn a_rejected_tool_has_its_reason(message: Doc, items: Seq<Doc>, i: int)
    requires
        message.items_at("rejectedTools"@) == Some(items),
        0 <= i < items.len(),
    ensures
        items[i].text_at("tool"@) matches Some(tool) ==> rejections(message)[i].0 == tool,
        items[i].text_at("reason"@) matches Some(reason) ==> rejections(message)[i].1 == reason,
{
}

/// What the hello says of the bot: who it is, what it speaks and what it offers, and the token only where
/// there is one.
pub proof fn the_hello_says_who_the_bot_is(
    config: Config,
    protocol: Doc,
    agent_version: Seq<char>,
    catalog_version: Doc,
    capabilities: Doc,
)
    ensures
        ({
            let said = hello_of(config, protocol, agent_version, catalog_version, capabilities);
            &&& said.text_at("t"@) == Some("hello"@)
            &&& said.items_at("protocols"@) == Some(seq![protocol])
            &&& said.text_at("botName"@) == Some(config.bot_name@)
            &&& said.text_at("kind"@) == Some("azalea"@)
            &&& said.text_at("agentVersion"@) == Some(agent_version)
            &&& said.at("catalogVersion"@) == Some(catalog_version)
            &&& said.at("capabilities"@) == Some(capabilities)
            &&& config.link_token matches Some(token) ==> said.text_at("linkToken"@) == Some(token@)
            &&& config.link_token is None ==> said.at("linkToken"@) is None
        }),
{
    broadcast use {a_field_reads_back, an_empty_object_has_nothing};
    reveal_strlit("t");
    reveal_strlit("protocols");
    reveal_strlit("botName");
    reveal_strlit("kind");
    reveal_strlit("agentVersion");
    reveal_strlit("mcVersion");
    reveal_strlit("catalogVersion");
    reveal_strlit("capabilities");
    reveal_strlit("features");
    reveal_strlit("linkToken");
    assert("t"@.len() == 1);
    assert("protocols"@.len() == 9);
    assert("botName"@.len() == 7);
    assert("kind"@.len() == 4);
    assert("agentVersion"@.len() == 12);
    assert("mcVersion"@.len() == 9);
    assert("catalogVersion"@.len() == 14);
    assert("capabilities"@.len() == 12);
    assert("features"@.len() == 8);
    assert("linkToken"@.len() == 9);
    assert("protocols"@[0] != "mcVersion"@[0]);
    assert("protocols"@[0] != "linkToken"@[0]);
    assert("agentVersion"@[0] != "capabilities"@[0]);
    assert("mcVersion"@[0] != "linkToken"@[0]);
}

} // verus!
