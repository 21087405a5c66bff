//! The link: its frames and messages, the calls over it, the feeds, and the game it joins.
use bot_azalea::bot::{log, status, Bot};
use bot_azalea::calls::{result, run, Answer, Calls, End, Failure};
use bot_azalea::config::Config;
use bot_azalea::feeds::{chat, close_all, dialog, dialog_closed, drawn, flush, flushes, fold, folds, pushes, ChatLine};
use bot_azalea::game::{
    address, connect, disconnect, join, notice_world, Act, Afterwards, Event, Game, Glimpse, Joining, Pump, Seen,
};
use bot_azalea::health::{healthy, response};
use bot_azalea::json::{Fraction, Json, Number};
use bot_azalea::link::frame::{
    decode, encode, json as json_frame, length, read, received, Arrival, Frame, JSON,
};
use bot_azalea::link::{bad_type, handle, hello, malformed, next_backoff, pong, Order};
use bot_azalea::tools::{alive, capabilities, find, in_world};
use serde_json::Value;

/// A document as the library holds one.
fn json(value: &Value) -> Json {
    match value {
        Value::Null => Json::Null,
        Value::Bool(b) => Json::Bool(*b),
        Value::Number(n) => Json::Number(number(n)),
        Value::String(text) => Json::Text(text.clone()),
        Value::Array(items) => Json::Array(items.iter().map(json).collect(), String::new()),
        Value::Object(fields) => Json::Object(
            fields.iter().map(|(name, value)| (name.clone(), json(value))).collect(),
            String::new(),
        ),
    }
}

fn number(n: &serde_json::Number) -> Number {
    if let Some(whole) = n.as_i64() {
        return Number::Whole(whole);
    }
    if let Some(large) = n.as_u64() {
        return Number::Large(large);
    }
    let f = n.as_f64().unwrap();
    Number::Fraction(Fraction {
        bits: f.to_bits(),
        whole: if f.fract() == 0.0 { Some(f as i64) } else { None },
        floor: f.floor() as i32,
        cut: f as i32,
    })
}

/// A document of the library as anybody else holds one.
fn value(json: &Json) -> Value {
    match json {
        Json::Null => Value::Null,
        Json::Bool(b) => Value::from(*b),
        Json::Number(Number::Whole(n)) => Value::from(*n),
        Json::Number(Number::Large(n)) => Value::from(*n),
        Json::Number(Number::Fraction(f)) => Value::from(f64::from_bits(f.bits)),
        Json::Text(text) => Value::from(text.as_str()),
        Json::Array(items, _) => Value::Array(items.iter().map(value).collect()),
        Json::Object(fields, _) => {
            Value::Object(fields.iter().map(|(name, field)| (name.clone(), value(field))).collect())
        }
    }
}

fn parsed(text: &str) -> Value {
    serde_json::from_str(text).unwrap()
}

fn doc(text: &str) -> Json {
    json(&parsed(text))
}

fn env(pairs: &[(&str, &str)]) -> Vec<(String, String)> {
    pairs.iter().map(|(name, value)| ((*name).to_owned(), (*value).to_owned())).collect()
}

fn bot() -> Bot {
    Bot::new(Config::from_env(&env(&[("BOT_NAME", "a1")])))
}

#[test]
fn an_empty_environment_gives_the_defaults() {
    let config = Config::from_env(&env(&[]));
    assert_eq!(config.host, "127.0.0.1");
    assert_eq!((config.port, config.health_port), (8765, 8080));
    assert_eq!(config.bot_name, "azalea");
    assert_eq!(config.link_token, None);
    assert_eq!((config.reconnect_min, config.reconnect_max), (500, 15_000));
}

#[test]
fn the_environment_says_where_to_dial() {
    let config = Config::from_env(&env(&[
        ("MCP_SERVER_HOST", "server"),
        ("MCP_SERVER_PORT", " 9000 "),
        ("BOT_NAME", "   "),
        ("HOSTNAME", "pod-3"),
        ("BOT_LINK_TOKEN", "t0ken"),
        ("HEALTH_PORT", "99999"),
        ("RECONNECT_MIN_MS", "fast"),
    ]));
    assert_eq!(config.host, "server");
    assert_eq!(config.port, 9000);
    assert_eq!(config.bot_name, "pod-3");
    assert_eq!(config.link_token.as_deref(), Some("t0ken"));
    assert_eq!(config.health_port, 8080);
    assert_eq!(config.reconnect_min, 500);
}

#[test]
fn the_ready_probe_waits_for_the_link_and_the_alive_one_does_not() {
    let ready = b"GET /readyz HTTP/1.1\r\n".to_vec();
    let alive = b"GET /healthz HTTP/1.1\r\n".to_vec();
    assert!(!healthy(&ready, false));
    assert!(healthy(&ready, true));
    assert!(healthy(&alive, false));
    assert!(!healthy(&b"GET /other".to_vec(), true));
    assert!(response(true).starts_with("HTTP/1.1 200 OK"));
    assert!(response(false).starts_with("HTTP/1.1 503"));
}

#[test]
fn a_frame_reads_back_what_was_written() {
    let text = r#"{"t":"ping","nonce":7}"#;
    let bytes = json_frame(text);
    assert_eq!(&bytes[0..5], &[0, 0, 0, 23, JSON]);
    let announced = u32::from_be_bytes([bytes[0], bytes[1], bytes[2], bytes[3]]);
    assert_eq!(length(announced), Ok(23));
    match decode(&bytes[4..].to_vec()) {
        Frame::Json(read) => assert_eq!(parsed(&read), parsed(text)),
        _ => panic!("not a document"),
    }
    assert_eq!(encode(5, &[1, 2]), vec![0, 0, 0, 3, 5, 1, 2]);
}

#[test]
fn a_frame_that_is_no_document_says_why() {
    match decode(&vec![JSON, b'{']) {
        Frame::Unreadable(reason) => assert!(reason.contains("EOF"), "{reason}"),
        _ => panic!("readable"),
    }
    assert!(matches!(decode(&vec![9, 1]), Frame::Other(9)));
    assert!(matches!(received(JSON, Err("no".to_owned())), Frame::Unreadable(_)));
    assert_eq!(length(0), Err("a frame of 0 bytes, outside 1..=16777216".to_owned()));
    assert_eq!(length(16_777_216), Ok(16_777_216));
    assert!(length(16_777_217).is_err());
}

#[test]
fn a_reconnect_waits_twice_as_long_up_to_the_longest() {
    assert_eq!(next_backoff(500, 15_000), 1000);
    assert_eq!(next_backoff(8000, 15_000), 15_000);
    assert_eq!(next_backoff(15_000, 15_000), 15_000);
}

#[test]
fn the_hello_carries_the_token_only_when_there_is_one() {
    let config = Config::from_env(&env(&[("BOT_NAME", "a1")]));
    let said = value(&hello(&config, Json::number(1), "0.1", Json::text("7"), Json::list(Vec::new())));
    assert_eq!(
        said,
        parsed(
            r#"{"t": "hello", "protocols": [1], "botName": "a1", "kind": "azalea", "agentVersion": "0.1",
                "mcVersion": "26.1.2", "catalogVersion": "7", "capabilities": [], "features": []}"#
        )
    );
    let config = Config::from_env(&env(&[("BOT_LINK_TOKEN", "secret")]));
    let said = value(&hello(&config, Json::number(1), "0.1", Json::Null, Json::list(Vec::new())));
    assert_eq!(said["linkToken"], Value::from("secret"));
}

#[test]
fn a_message_is_read_by_its_kind() {
    match handle(&doc(r#"{"t": "call", "id": 4, "tool": "jump"}"#)) {
        Order::Call { id, tool, deadline_ms, args } => {
            assert_eq!(value(&id), Value::from(4));
            assert_eq!(tool, "jump");
            assert_eq!(deadline_ms, 30_000);
            assert_eq!(value(&args), Value::Null);
        }
        _ => panic!("not a call"),
    }
    match handle(&doc(r#"{"t": "helloOk", "events": {"chat": true}, "rejectedTools": [{"tool": "x"}], "repeatFlushMs": 250}"#)) {
        Order::Accepted { feeds, session, rejected, repeat_flush_ms } => {
            assert_eq!(repeat_flush_ms, Some(250));
            assert_eq!(value(&feeds), parsed(r#"{"chat": true}"#));
            assert_eq!(session, "?");
            assert_eq!(rejected, vec![("x".to_owned(), "no reason given".to_owned())]);
        }
        _ => panic!("not accepted"),
    }
    assert!(matches!(handle(&doc(r#"{"t": "helloErr", "code": "AUTH"}"#)), Order::Closed { .. }));
    assert!(matches!(handle(&doc(r#"{"t": "fault"}"#)), Order::Closed { .. }));
    assert!(matches!(handle(&doc(r#"{"t": "connect"}"#)), Order::Connect));
    assert!(matches!(handle(&doc(r#"{"t": "disconnect"}"#)), Order::Disconnect));
    assert!(matches!(handle(&doc(r#"{"t": "cancel", "id": 1}"#)), Order::Cancel { .. }));
    assert!(matches!(handle(&doc(r#"{"t": "ping", "nonce": 1}"#)), Order::Ping { .. }));
    assert!(matches!(handle(&doc(r#"{"t": "shutdown"}"#)), Order::Shutdown { .. }));
    assert!(matches!(handle(&doc(r#"{"t": "dance"}"#)), Order::Unknown(_)));
    assert_eq!(value(&pong(Json::number(9), 5, 2)), parsed(r#"{"t": "pong", "nonce": 9, "ts": 5, "busy": 2}"#));
    assert_eq!(
        bad_type(3).text_at("message"),
        Some("BAD_FRAME_TYPE 3 from the server, ignored")
    );
    assert_eq!(
        malformed("eof").text_at("message"),
        Some("MALFORMED_JSON from the server, ignored: eof")
    );
}

#[test]
fn each_call_has_one_result() {
    let mut calls = Calls::new();
    assert!(calls.begin("1"));
    assert!(calls.begin("2"));
    assert_eq!(calls.busy(), 2);
    assert!(calls.finish("1"));
    assert!(!calls.finish("1"));
    assert!(!calls.cancel("1"));
    assert!(calls.cancel("2"));
    calls.clear();
    assert_eq!(calls.busy(), 0);
    assert!(!calls.finish("2"));
}

#[test]
fn a_call_runs_to_the_result_of_what_came_first() {
    let mut calls = Calls::new();
    assert!(calls.begin("7"));
    assert!(!calls.begin("7"));
    let done = run(&mut calls, "7", Json::number(7), "jump", 500, 12, End::Done(Ok(Answer::text("Jumped.".to_owned()))));
    assert_eq!(value(&done.unwrap())["text"], Value::from("Jumped."));
    assert!(run(&mut calls, "7", Json::number(7), "jump", 500, 12, End::Deadline).is_none());

    assert!(calls.begin("7"));
    let late = value(&run(&mut calls, "7", Json::number(7), "jump", 500, 501, End::Deadline).unwrap());
    assert_eq!((late["error"]["class"].clone(), late["error"]["code"].clone()), (Value::from("timeout"), Value::from("DEADLINE")));

    assert!(calls.begin("7"));
    assert!(calls.cancel("7"));
    let off = End::Cancelled(Some("enough".to_owned()));
    let off = value(&run(&mut calls, "7", Json::number(7), "jump", 500, 3, off).unwrap());
    assert_eq!((off["error"]["class"].clone(), off["text"].clone()), (Value::from("cancelled"), Value::from("enough")));

    assert!(calls.begin("7"));
    calls.clear();
    assert!(run(&mut calls, "7", Json::number(7), "jump", 500, 3, End::Cancelled(None)).is_none());
}

#[test]
fn a_frame_is_read_once_it_is_whole() {
    let bytes = encode(9, &[1, 2]);
    assert!(matches!(read(&bytes[..0].to_vec(), false), Arrival::More(4)));
    assert!(matches!(read(&bytes[..0].to_vec(), true), Arrival::Closed));
    assert!(matches!(read(&bytes[..3].to_vec(), true), Arrival::Cut));
    assert!(matches!(read(&bytes[..4].to_vec(), false), Arrival::More(3)));
    assert!(matches!(read(&bytes[..6].to_vec(), true), Arrival::Cut));
    assert!(matches!(read(&bytes, false), Arrival::Whole(Frame::Other(9), 7)));
    let longer: Vec<u8> = bytes.iter().chain(&[1, 2, 3]).copied().collect();
    assert!(matches!(read(&longer, true), Arrival::Whole(Frame::Other(9), 7)));
    match read(&vec![0, 0, 0, 0], false) {
        Arrival::Misfit(reason) => assert_eq!(reason, "a frame of 0 bytes, outside 1..=16777216"),
        _ => panic!("a frame of no bytes"),
    }
    assert!(matches!(read(&vec![1, 0, 0, 1, 0], false), Arrival::Misfit(_)));
}

#[test]
fn documents_are_alike_whatever_order_their_fields_come_in() {
    let one = doc(r#"{"a": [1, {"b": 0.0, "c": null}], "d": "x"}"#);
    assert!(one.equals(&doc(r#"{"d": "x", "a": [1, {"c": null, "b": -0.0}]}"#)));
    assert!(!one.equals(&doc(r#"{"d": "x", "a": [1, {"c": null}]}"#)));
    assert!(!one.equals(&doc(r#"{"d": "x", "a": [1, {"c": null, "b": 0.0}], "e": 1}"#)));
    assert!(!one.equals(&doc(r#"{"d": "y", "a": [1, {"c": null, "b": 0.0}]}"#)));
    assert!(!doc("1").equals(&doc("1.0")));
    assert!(!doc("[1, 2]").equals(&doc("[2, 1]")));
}

#[test]
fn leaving_is_answered_and_leaves_the_bot_idle() {
    let leaving = disconnect(&doc(r#"{"t": "disconnect", "id": 8}"#));
    assert_eq!(value(&leaving.id), Value::from(8));
    assert_eq!((leaving.deadline_ms, leaving.state, leaving.reason), (10_000, "idle", "asked to leave"));
    assert_eq!(leaving.answer.text, "Left the server");
    assert_eq!(value(&disconnect(&doc("{}")).id), Value::Null);
}

#[test]
fn a_result_says_what_came_of_the_call() {
    let ok = value(&result(Json::number(3), 12, Ok(Answer::text("Jumped.".to_owned()))));
    assert_eq!(ok["t"], Value::from("result"));
    assert_eq!(ok["id"], Value::from(3));
    assert_eq!(ok["ok"], Value::from(true));
    let err = value(&result(Json::number(3), 12, Err(Failure::unsupported("take-screenshot"))));
    assert_eq!(err["ok"], Value::from(false));
    assert_eq!(err["error"]["class"], Value::from("unsupported"));
    assert_eq!(err["error"]["code"], Value::from("NOT_IMPLEMENTED"));
    assert_eq!(Failure::deadline("jump", 500).message, "jump did not finish within 500ms");
    assert_eq!(Failure::not_in_game().code, "NOT_IN_GAME");
    assert_eq!(Failure::cancelled(None).class, Failure::cancelled(Some("x".to_owned())).class);
}

#[test]
fn tools_are_found_by_name_and_offered_where_the_catalogue_has_a_hash() {
    assert!(find("get-position").is_some());
    assert!(find("take-screenshot").is_none());
    let hashes = env(&[("jump", "abc"), ("take-screenshot", "def"), ("get-position", "012")]);
    let offered: Vec<Value> = capabilities(&hashes).iter().map(value).collect();
    assert_eq!(
        offered,
        vec![
            parsed(r#"{"tool": "get-position", "argsHash": "012"}"#),
            parsed(r#"{"tool": "jump", "argsHash": "abc"}"#),
        ]
    );
    assert!(in_world(true).is_ok());
    assert_eq!(in_world(false).err().map(|failure| failure.code), Some("NOT_IN_GAME".to_owned()));
    assert!(alive(true, false, None).is_ok());
    assert_eq!(alive(false, true, None).err().map(|failure| failure.code), Some("NOT_IN_GAME".to_owned()));
    let dead = |cause: Option<&str>| alive(true, true, cause.map(str::to_owned)).err().map(|failure| failure.message);
    assert_eq!(dead(None), Some("the bot is dead. Use respawn first.".to_owned()));
    assert_eq!(dead(Some("Amy fell")), Some("the bot is dead: Amy fell. Use respawn first.".to_owned()));
}

fn bar(text: &str) -> bot_azalea::feeds::Line {
    drawn("actionBar", "overlay", text.to_owned(), Json::list(Vec::new()), Json::text(text))
}

fn texts(frames: &[Json]) -> Vec<(u64, u64, bool)> {
    frames
        .iter()
        .map(|frame| (frame.nat_at("seq").unwrap(), frame.nat_at("repeats").unwrap(), frame.bool_at("closed").unwrap()))
        .collect()
}

#[test]
fn a_line_drawn_again_is_one_run_sent_once_a_second() {
    let mut bot = bot();
    assert!(fold(&mut bot, bar("Mana 1"), 0).is_empty());
    bot.accepted(doc(r#"{"actionBar": true, "chat": true}"#));
    assert!(bot.linked());

    assert_eq!(texts(&fold(&mut bot, bar("Mana 1"), 100)), vec![(1, 1, false)]);
    assert_eq!(texts(&fold(&mut bot, bar("Mana 1"), 150)), vec![]);
    assert_eq!(texts(&fold(&mut bot, bar("Mana 1"), 1100)), vec![(1, 3, false)]);
    assert_eq!(texts(&fold(&mut bot, bar("Mana 2"), 1200)), vec![(1, 3, true), (2, 1, false)]);
    /* Drawn no more, it goes stale and is closed once. */
    assert_eq!(texts(&flush(&mut bot, 4200)), vec![(2, 1, true)]);
    assert!(flush(&mut bot, 9000).is_empty());
    fold(&mut bot, bar("Mana 3"), 9100);
    assert_eq!(texts(&close_all(&mut bot, 9200)), vec![(3, 1, true)]);
    bot.detach();
    assert!(!bot.linked());
}

#[test]
fn a_clock_behind_another_feed_draws_all_the_same() {
    let mut bot = bot();
    bot.accepted(doc(r#"{"actionBar": true, "title": true}"#));
    let title = |text: &str| drawn("title", "title", text.to_owned(), Json::list(Vec::new()), Json::text(text));
    fold(&mut bot, title("Welcome"), 5000);
    assert!(folds(&bot, &bar("Mana 1"), 100));
    assert_eq!(texts(&fold(&mut bot, bar("Mana 1"), 100)), vec![(2, 1, false)]);
    assert!(!folds(&bot, &bar("Mana 1"), 99));
    assert!(folds(&bot, &bar("Mana 2"), 99));
    assert!(!flushes(&bot, 4999));
    assert!(flushes(&bot, 5000));
    /* A line that reads the same is the same, whatever order its fields come in. */
    let styled = |component: &str| drawn("title", "title", "Hi".to_owned(), Json::list(Vec::new()), doc(component));
    fold(&mut bot, styled(r#"{"text": "Hi", "color": "red"}"#), 6000);
    assert!(fold(&mut bot, styled(r#"{"color": "red", "text": "Hi"}"#), 6100).is_empty());
}

#[test]
fn chat_goes_out_as_it_is_said() {
    let mut bot = bot();
    bot.accepted(doc(r#"{"chat": true}"#));
    let line = ChatLine {
        overlay: false,
        sender: Some("Amy".to_owned()),
        text: "hello".to_owned(),
        component: Json::text("hello"),
    };
    assert!(pushes(&bot, &line, &Json::list(Vec::new()), 7));
    let frames = chat(&mut bot, line, Json::list(Vec::new()), 7);
    assert_eq!(frames.len(), 1);
    assert_eq!(frames[0].text_at("kind"), Some("chat"));
    assert_eq!(frames[0].nat_at("ts"), Some(7));
    assert_eq!(dialog(&doc(r#"{"title": "Shop"}"#)).kind, dialog_closed().kind);
}

#[test]
fn a_status_says_the_world_only_while_there_is_one() {
    let idle = value(&status("idle", Some("asked to leave"), 3, None));
    assert_eq!(
        idle,
        parsed(r#"{"t": "status", "state": "idle", "ts": 3, "mcVersion": "26.1.2", "reason": "asked to leave"}"#)
    );
    let mut game = Game::new(1, "server:25565".to_owned(), "a1".to_owned());
    game.arrived();
    let seen = Seen {
        x: Number::Whole(1),
        y: Number::Whole(64),
        z: Number::Whole(-3),
        dead: false,
        game_mode: "survival".to_owned(),
        dimension: Some("overworld".to_owned()),
    };
    let ready = value(&status("ready", None, 4, Some((&game, Some(seen)))));
    assert_eq!(ready["username"], Value::from("a1"));
    assert_eq!(ready["dead"], Value::from(false));
    assert_eq!(value(&log("warn", "x")), parsed(r#"{"t": "log", "level": "warn", "message": "x"}"#));
}

#[test]
fn the_world_is_noticed_when_it_changes_or_was_not_told_for_long() {
    let glimpse = |dead: bool| {
        Some(Glimpse { dimension: Some("overworld".to_owned()), game_mode: "survival".to_owned(), dead })
    };
    let mut reported = None;
    assert!(notice_world(&mut reported, glimpse(false), 0));
    assert!(!notice_world(&mut reported, glimpse(false), 99));
    assert!(notice_world(&mut reported, glimpse(false), 100));
    assert!(notice_world(&mut reported, glimpse(true), 101));
    assert!(!notice_world(&mut reported, None, 102));
}

#[test]
fn a_join_is_read_with_its_defaults() {
    let asked = connect(&doc("{}"), "a1");
    assert_eq!((asked.host.as_str(), asked.port, asked.username.as_str()), ("127.0.0.1", 25565, "a1"));
    assert_eq!((asked.spawn_timeout_ms, asked.deadline_ms), (60_000, 62_000));
    assert_eq!(address("server", 25565), "server:25565");
}

#[test]
fn a_join_comes_to_one_of_its_ends() {
    let (then, outcome) = join("s:1", "a1", 500, Joining::Answered(Ok(())));
    assert!(then == Afterwards::SayReady);
    assert_eq!(outcome.map(|answer| answer.text).ok(), Some("Joined s:1 as a1".to_owned()));
    let (then, outcome) = join("s:1", "a1", 500, Joining::TimedOut);
    assert!(then == Afterwards::Leave);
    let failure = outcome.err().unwrap();
    assert_eq!((failure.code.as_str(), failure.message.as_str()), ("JOIN_FAILED_SPAWN", "did not spawn on s:1 within 500ms"));
    let (_, outcome) = join("s:1", "a1", 500, Joining::Unresolved("no such host".to_owned()));
    assert_eq!(outcome.err().map(|failure| failure.code), Some("JOIN_FAILED_DIAL".to_owned()));
}

#[test]
fn a_kick_before_the_login_is_told_from_one_after_it() {
    let kicked = |logged_in: bool, profile: bool| {
        let mut pump = Pump::new();
        if logged_in {
            pump.pump(Event::Login, true, false);
        }
        let acts = pump.pump(Event::Disconnect { reason: Some("banned".to_owned()), profile }, true, false);
        match &acts[0] {
            Act::Joined(Err(failure)) => failure.code.clone(),
            _ => panic!("the join was not answered"),
        }
    };
    assert_eq!(kicked(false, false), "JOIN_FAILED_LOGIN");
    assert_eq!(kicked(true, false), "JOIN_FAILED_SPAWN");
    assert_eq!(kicked(false, true), "JOIN_FAILED_SPAWN");
}

#[test]
fn a_join_is_answered_once() {
    let mut pump = Pump::new();
    let spawned = pump.pump(Event::Spawn, true, false);
    assert!(spawned.iter().any(|act| matches!(act, Act::Joined(Ok(())))));
    let left = pump.pump(Event::Disconnect { reason: None, profile: true }, true, false);
    assert!(!left.iter().any(|act| matches!(act, Act::Joined(_))));
    assert!(matches!(&left[0], Act::Status { state: "disconnected", .. }));
    let told = Pump { joining: false, logged_in: true }.pump(Event::Disconnect { reason: None, profile: true }, true, true);
    assert!(!told.iter().any(|act| matches!(act, Act::Status { .. })));
}
